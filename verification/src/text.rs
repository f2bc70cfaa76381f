//! Verified text machinery shared by the tools: substring search,
//! replacement, splitting and joining, comparison and decimal reading and
//! writing, all specified over `Seq<char>`; case folding and trimming go
//! through std under named results.
use vstd::prelude::*;

verus! {

/// Relies on String::push: appends one character at the end of the string.
#[verifier::external_body]
pub(crate) fn push_char(s: &mut String, c: char)
    ensures
        final(s)@ == old(s)@.push(c),
{
    s.push(c)
}

/// The characters of `s`, as a vector.
pub fn chars_vec(s: &str) -> (r: Vec<char>)
    ensures
        r@ == s@,
{
    let n = s.unicode_len();
    let mut out: Vec<char> = Vec::new();
    let mut i: usize = 0;
    while i < n
        invariant
            n == s@.len(),
            i <= n,
            out@ == s@.subrange(0, i as int),
        decreases n - i,
    {
        out.push(s.get_char(i));
        proof {
            assert(out@ =~= s@.subrange(0, i + 1 as int));
        }
        i = i + 1;
    }
    proof {
        assert(out@ =~= s@);
    }
    out
}

/// The characters of `cs`, as a string.
pub fn string_from_chars(cs: &Vec<char>) -> (r: String)
    ensures
        r@ == cs@,
{
    let mut out = String::new();
    let mut i: usize = 0;
    while i < cs.len()
        invariant
            i <= cs@.len(),
            out@ == cs@.subrange(0, i as int),
        decreases cs@.len() - i,
    {
        push_char(&mut out, cs[i]);
        proof {
            assert(out@ =~= cs@.subrange(0, i + 1 as int));
        }
        i = i + 1;
    }
    proof {
        assert(out@ =~= cs@);
    }
    out
}

/// Whether the pattern `p` occurs in `s` starting at position `i`.
pub open spec fn match_at(s: Seq<char>, p: Seq<char>, i: int) -> bool {
    0 <= i && i + p.len() <= s.len() && s.subrange(i, i + p.len() as int) == p
}

/// Whether the pattern `p` occurs anywhere in `s`.
pub open spec fn contains_seq(s: Seq<char>, p: Seq<char>) -> bool {
    exists|i: int| match_at(s, p, i)
}

/// Whether `p` occurs in `s` at position `i`, checked character by character.
fn check_match_at(s: &Vec<char>, p: &Vec<char>, i: usize) -> (r: bool)
    requires
        i + p@.len() <= s@.len(),
    ensures
        r == match_at(s@, p@, i as int),
{
    let n = s.len();
    let m = p.len();
    let mut j: usize = 0;
    while j < m
        invariant
            n == s@.len(),
            m == p@.len(),
            i + m <= n,
            j <= m,
            forall|k: int| 0 <= k < j ==> s@[i + k] == p@[k],
        decreases m - j,
    {
        if s[i + j] != p[j] {
            proof {
                assert(s@.subrange(i as int, i + p@.len() as int)[j as int] == s@[i + j]);
            }
            return false;
        }
        j = j + 1;
    }
    proof {
        assert(s@.subrange(i as int, i + p@.len() as int) =~= p@);
    }
    true
}

/// The position of the leftmost occurrence of `p` in `s`, if any.
pub fn find_first(s: &Vec<char>, p: &Vec<char>) -> (r: Option<usize>)
    ensures
        match r {
            Some(i) => match_at(s@, p@, i as int) && forall|k: int|
                0 <= k < i ==> !match_at(s@, p@, k),
            None => !contains_seq(s@, p@),
        },
{
    let n = s.len();
    let m = p.len();
    if m > n {
        proof {
            assert(forall|i: int| #[trigger] match_at(s@, p@, i) ==> i + p@.len() <= s@.len());
        }
        return None;
    }
    if m == 0 {
        proof {
            assert(s@.subrange(0, 0) =~= p@);
        }
        return Some(0);
    }
    let mut i: usize = 0;
    while i <= n - m
        invariant
            n == s@.len(),
            m == p@.len(),
            0 < m <= n,
            i <= n - m + 1,
            forall|k: int| 0 <= k < i ==> !match_at(s@, p@, k),
        decreases n - i,
    {
        if check_match_at(s, p, i) {
            return Some(i);
        }
        i = i + 1;
    }
    proof {
        assert(forall|k: int| #[trigger] match_at(s@, p@, k) ==> 0 <= k <= n - m);
    }
    None
}

/// Whether the characters `p` occur as a contiguous substring of `s`.
pub fn contains_chars(s: &Vec<char>, p: &Vec<char>) -> (r: bool)
    ensures
        r == contains_seq(s@, p@),
{
    match find_first(s, p) {
        Some(_) => true,
        None => false,
    }
}

/// Whether the string `p` occurs as a contiguous substring of `s`.
pub fn str_contains(s: &str, p: &str) -> (r: bool)
    ensures
        r == contains_seq(s@, p@),
{
    let sv = chars_vec(s);
    let pv = chars_vec(p);
    contains_chars(&sv, &pv)
}

/// Whether two string slices hold the same characters.
pub fn str_eq(a: &str, b: &str) -> (r: bool)
    ensures
        r == (a@ == b@),
{
    let an = a.unicode_len();
    let bn = b.unicode_len();
    if an != bn {
        return false;
    }
    let mut i: usize = 0;
    while i < an
        invariant
            an == a@.len(),
            a@.len() == b@.len(),
            i <= an,
            forall|k: int| 0 <= k < i ==> a@[k] == b@[k],
        decreases an - i,
    {
        if a.get_char(i) != b.get_char(i) {
            return false;
        }
        i = i + 1;
    }
    proof {
        assert(a@ =~= b@);
    }
    true
}

/// The lower-case form of a character sequence, as std's case folding
/// produces it: a function of the characters alone.
pub uninterp spec fn lower_of(s: Seq<char>) -> Seq<char>;

/// Relies on str::to_lowercase: the Unicode lower-case form of the string,
/// depending on the characters alone.
#[verifier::external_body]
pub fn to_lower(s: &str) -> (r: String)
    ensures
        r@ == lower_of(s@),
{
    s.to_lowercase()
}

/// The sequence with leading and trailing whitespace removed, as std's
/// trimming produces it: a function of the characters alone.
pub uninterp spec fn trimmed_of(s: Seq<char>) -> Seq<char>;

/// Relies on str::trim: the string without leading and trailing Unicode
/// whitespace, depending on the characters alone.
#[verifier::external_body]
pub fn trim(s: &str) -> (r: String)
    ensures
        r@ == trimmed_of(s@),
{
    s.trim().to_string()
}

/// The fields of `s` separated by `sep`: there is always at least one field,
/// and no field holds a separator.
pub open spec fn split_by(s: Seq<char>, sep: char) -> Seq<Seq<char>>
    decreases s.len(),
{
    if s.len() == 0 {
        seq![Seq::<char>::empty()]
    } else if s[0] == sep {
        seq![Seq::<char>::empty()] + split_by(s.drop_first(), sep)
    } else {
        let rest = split_by(s.drop_first(), sep);
        seq![seq![s[0]] + rest[0]] + rest.drop_first()
    }
}

/// Splitting a string without separators yields that string as the one field.
pub proof fn lemma_split_no_sep(s: Seq<char>, sep: char)
    requires
        !s.contains(sep),
    ensures
        split_by(s, sep) == seq![s],
    decreases s.len(),
{
    if s.len() == 0 {
        assert(split_by(s, sep) =~~= seq![s]);
    } else {
        assert(s[0] != sep);
        assert(forall|i: int| 0 <= i < s.drop_first().len() ==> s.drop_first()[i] == s[i + 1]);
        lemma_split_no_sep(s.drop_first(), sep);
        let rest = split_by(s.drop_first(), sep);
        assert(rest[0] == s.drop_first());
        assert(seq![s[0]] + s.drop_first() =~= s);
        assert(split_by(s, sep) =~~= seq![s]);
    }
}

/// Splitting starts with the first separator-free field.
pub proof fn lemma_split_field(field: Seq<char>, sep: char, rest: Seq<char>)
    requires
        !field.contains(sep),
    ensures
        split_by(field + seq![sep] + rest, sep) == seq![field] + split_by(rest, sep),
    decreases field.len(),
{
    let s = field + seq![sep] + rest;
    if field.len() == 0 {
        assert(s =~= seq![sep] + rest);
        assert(s[0] == sep);
        assert(s.drop_first() =~= rest);
        assert(split_by(s, sep) =~~= seq![field] + split_by(rest, sep));
    } else {
        assert(s.len() > 0 && s[0] == field[0]);
        assert(s[0] != sep);
        assert(forall|i: int| 0 <= i < field.drop_first().len() ==> field.drop_first()[i]
            == field[i + 1]);
        assert(s.drop_first() =~= field.drop_first() + seq![sep] + rest);
        lemma_split_field(field.drop_first(), sep, rest);
        let r = split_by(s.drop_first(), sep);
        assert(r == seq![field.drop_first()] + split_by(rest, sep));
        assert(r[0] == field.drop_first());
        assert(r.drop_first() =~= split_by(rest, sep));
        assert(seq![s[0]] + r[0] =~= field);
        assert(split_by(s, sep) =~~= seq![field] + split_by(rest, sep));
    }
}

/// The fields of `s` separated by `sep`, as vectors of characters.
pub fn split_chars(s: &Vec<char>, sep: char) -> (r: Vec<Vec<char>>)
    ensures
        r.deep_view() == split_by(s@, sep),
{
    let mut out: Vec<Vec<char>> = Vec::new();
    let mut cur: Vec<char> = Vec::new();
    let mut i: usize = 0;
    proof {
        assert(cur@ + s@.skip(0) =~= s@);
        assert(out.deep_view() =~= Seq::<Seq<char>>::empty());
    }
    while i < s.len()
        invariant
            i <= s@.len(),
            !cur@.contains(sep),
            split_by(s@, sep) == out.deep_view() + split_by(cur@ + s@.skip(i as int), sep),
        decreases s@.len() - i,
    {
        let c = s[i];
        proof {
            assert(s@.skip(i as int) =~= seq![s@[i as int]] + s@.skip(i + 1 as int));
        }
        if c == sep {
            proof {
                assert(cur@ + s@.skip(i as int) =~= cur@ + seq![sep] + s@.skip(i + 1 as int));
                lemma_split_field(cur@, sep, s@.skip(i + 1 as int));
                assert(Seq::<char>::empty() + s@.skip(i + 1 as int) =~= s@.skip(i + 1 as int));
            }
            let ghost prev = out.deep_view();
            let ghost prev_cur = cur@;
            out.push(cur);
            proof {
                assert(out.deep_view() =~~= prev + seq![prev_cur]);
            }
            cur = Vec::new();
            proof {
                assert(cur@ + s@.skip(i + 1 as int) =~= s@.skip(i + 1 as int));
            }
        } else {
            let ghost prev_cur = cur@;
            cur.push(c);
            proof {
                assert(cur@ + s@.skip(i + 1 as int) =~= prev_cur + s@.skip(i as int));
            }
        }
        i = i + 1;
    }
    proof {
        assert(cur@ + s@.skip(i as int) =~= cur@);
        lemma_split_no_sep(cur@, sep);
    }
    let ghost prev = out.deep_view();
    let ghost prev_cur = cur@;
    out.push(cur);
    proof {
        assert(out.deep_view() =~~= prev + seq![prev_cur]);
        assert(out.deep_view() =~~= split_by(s@, sep));
    }
    out
}

/// The fields joined with `sep` between consecutive fields.
pub open spec fn joined(parts: Seq<Seq<char>>, sep: char) -> Seq<char>
    decreases parts.len(),
{
    if parts.len() == 0 {
        Seq::empty()
    } else if parts.len() == 1 {
        parts[0]
    } else {
        parts[0] + seq![sep] + joined(parts.drop_first(), sep)
    }
}

pub proof fn lemma_joined_push(parts: Seq<Seq<char>>, sep: char, x: Seq<char>)
    ensures
        joined(parts.push(x), sep) == if parts.len() == 0 {
            x
        } else {
            joined(parts, sep) + seq![sep] + x
        },
    decreases parts.len(),
{
    if parts.len() == 0 {
        assert(parts.push(x) =~= seq![x]);
        assert(joined(seq![x], sep) == x);
    } else if parts.len() == 1 {
        assert(parts.push(x).drop_first() =~= seq![x]);
        assert(joined(seq![x], sep) == x);
        assert(parts.push(x)[0] == parts[0]);
        assert(joined(parts.push(x), sep) == parts[0] + seq![sep] + x);
    } else {
        assert(parts.push(x).drop_first() =~= parts.drop_first().push(x));
        lemma_joined_push(parts.drop_first(), sep, x);
        assert(joined(parts.push(x), sep) == parts[0] + seq![sep] + (joined(
            parts.drop_first(),
            sep,
        ) + seq![sep] + x));
        assert(parts[0] + seq![sep] + (joined(parts.drop_first(), sep) + seq![sep] + x) =~= (
        parts[0] + seq![sep] + joined(parts.drop_first(), sep)) + seq![sep] + x);
    }
}

/// The fields joined with `sep`, as a vector of characters.
pub fn join_chars(parts: &Vec<Vec<char>>, sep: char) -> (r: Vec<char>)
    ensures
        r@ == joined(parts.deep_view(), sep),
{
    let mut out: Vec<char> = Vec::new();
    let mut i: usize = 0;
    proof {
        assert(parts.deep_view().subrange(0, 0) =~= Seq::<Seq<char>>::empty());
    }
    while i < parts.len()
        invariant
            i <= parts@.len(),
            parts.deep_view().len() == parts@.len(),
            out@ == joined(parts.deep_view().subrange(0, i as int), sep),
        decreases parts@.len() - i,
    {
        let ghost prefix = parts.deep_view().subrange(0, i as int);
        proof {
            assert(parts.deep_view().subrange(0, i + 1 as int) =~= prefix.push(
                parts.deep_view()[i as int],
            ));
            lemma_joined_push(prefix, sep, parts.deep_view()[i as int]);
        }
        if i > 0 {
            let mut sep_v: Vec<char> = Vec::new();
            sep_v.push(sep);
            let ghost before = out@;
            append_chars(&mut out, &sep_v);
            proof {
                assert(out@ =~= before + seq![sep]);
            }
        }
        append_chars(&mut out, &parts[i]);
        i = i + 1;
    }
    proof {
        assert(parts.deep_view().subrange(0, parts@.len() as int) =~= parts.deep_view());
    }
    out
}

/// Appends all characters of `src` at the end of `dst`.
pub fn append_chars(dst: &mut Vec<char>, src: &Vec<char>)
    ensures
        final(dst)@ == old(dst)@ + src@,
{
    let mut i: usize = 0;
    while i < src.len()
        invariant
            i <= src@.len(),
            dst@ == old(dst)@ + src@.subrange(0, i as int),
        decreases src@.len() - i,
    {
        dst.push(src[i]);
        proof {
            assert(old(dst)@ + src@.subrange(0, i as int) + seq![src@[i as int]] =~= old(dst)@
                + src@.subrange(0, i + 1 as int));
        }
        i = i + 1;
    }
    proof {
        assert(dst@ =~= old(dst)@ + src@);
    }
}

/// One line as produced by line splitting: a trailing carriage return is
/// removed.
pub open spec fn strip_cr(l: Seq<char>) -> Seq<char> {
    if l.len() > 0 && l.last() == '\r' {
        l.drop_last()
    } else {
        l
    }
}

/// The lines of `s`: fields separated by a line feed, where a final line feed
/// ends the last line rather than opening an empty one, and each line loses a
/// trailing carriage return.
pub open spec fn lines_of(s: Seq<char>) -> Seq<Seq<char>> {
    if s.len() == 0 {
        Seq::empty()
    } else if s.last() == '\n' {
        split_by(s.drop_last(), '\n').map_values(|l: Seq<char>| strip_cr(l))
    } else {
        split_by(s, '\n').map_values(|l: Seq<char>| strip_cr(l))
    }
}

/// The lines of `s`, as strings.
pub fn split_lines(s: &str) -> (r: Vec<String>)
    ensures
        r.deep_view() == lines_of(s@),
{
    let mut cs = chars_vec(s);
    if cs.len() == 0 {
        let r: Vec<String> = Vec::new();
        proof {
            assert(r.deep_view() =~= lines_of(s@));
        }
        return r;
    }
    if cs[cs.len() - 1] == '\n' {
        let _ = cs.pop();
        proof {
            assert(cs@ =~= s@.drop_last());
        }
    }
    let ghost segs = split_by(cs@, '\n');
    let fields = split_chars(&cs, '\n');
    let mut out: Vec<String> = Vec::new();
    let mut i: usize = 0;
    while i < fields.len()
        invariant
            i <= fields@.len(),
            fields.deep_view() == segs,
            segs.len() == fields@.len(),
            out.deep_view().len() == i as int,
            forall|k: int| 0 <= k < i ==> out.deep_view()[k] == strip_cr(segs[k]),
        decreases fields@.len() - i,
    {
        let f = &fields[i];
        let mut g: Vec<char> = Vec::new();
        append_chars(&mut g, f);
        if g.len() > 0 && g[g.len() - 1] == '\r' {
            let _ = g.pop();
        }
        proof {
            assert(g@ =~= strip_cr(segs[i as int]));
        }
        let line = g;
        let ghost prev_out = out.deep_view();
        out.push(string_from_chars(&line));
        proof {
            assert(out.deep_view() =~= prev_out + seq![line@]);
        }
        i = i + 1;
    }
    proof {
        assert(out.deep_view() =~~= segs.map_values(|l: Seq<char>| strip_cr(l)));
    }
    out
}

/// Shifting the start of the text shifts match positions with it.
pub proof fn lemma_match_shift(s: Seq<char>, p: Seq<char>, base: int, k: int)
    requires
        0 <= base <= s.len(),
        0 <= k,
    ensures
        match_at(s, p, base + k) == match_at(s.skip(base), p, k),
{
    if k + p.len() <= s.len() - base {
        assert(s.skip(base).subrange(k, k + p.len() as int) =~= s.subrange(
            base + k,
            base + k + p.len() as int,
        ));
    }
}

/// The text with every occurrence of `from` replaced by `to`, scanning from
/// the left and never rescanning replaced text; an empty `from` changes
/// nothing.
pub open spec fn replaced_all(s: Seq<char>, from: Seq<char>, to: Seq<char>) -> Seq<char>
    decreases s.len(),
{
    if from.len() == 0 || s.len() < from.len() {
        s
    } else if match_at(s, from, 0) {
        to + replaced_all(s.skip(from.len() as int), from, to)
    } else {
        seq![s[0]] + replaced_all(s.drop_first(), from, to)
    }
}

fn replace_all_into(s: &Vec<char>, from: &Vec<char>, to: &Vec<char>, pos: usize, out: &mut Vec<
    char,
>)
    requires
        from@.len() > 0,
        pos <= s@.len(),
    ensures
        final(out)@ == old(out)@ + replaced_all(s@.skip(pos as int), from@, to@),
    decreases s@.len() - pos,
{
    let n = s.len();
    let m = from.len();
    if n - pos < m {
        let mut i: usize = pos;
        while i < n
            invariant
                pos <= i <= n,
                n == s@.len(),
                out@ == old(out)@ + s@.subrange(pos as int, i as int),
            decreases n - i,
        {
            let ghost before = out@;
            out.push(s[i]);
            proof {
                assert(before + seq![s@[i as int]] =~= old(out)@ + s@.subrange(
                    pos as int,
                    i + 1 as int,
                ));
            }
            i = i + 1;
        }
        proof {
            assert(s@.subrange(pos as int, n as int) =~= s@.skip(pos as int));
            assert(s@.skip(pos as int).len() < from@.len());
        }
    } else if check_match_at(s, from, pos) {
        proof {
            lemma_match_shift(s@, from@, pos as int, 0);
            assert(s@.skip(pos as int).skip(from@.len() as int) =~= s@.skip(pos + from@.len()
                as int));
        }
        let ghost before = out@;
        append_chars(out, to);
        replace_all_into(s, from, to, pos + m, out);
        proof {
            assert(before + to@ + replaced_all(s@.skip(pos + from@.len() as int), from@, to@)
                =~= before + (to@ + replaced_all(s@.skip(pos + from@.len() as int), from@, to@)));
        }
    } else {
        proof {
            lemma_match_shift(s@, from@, pos as int, 0);
            assert(s@.skip(pos as int).drop_first() =~= s@.skip(pos + 1 as int));
            assert(s@.skip(pos as int)[0] == s@[pos as int]);
        }
        let ghost before = out@;
        out.push(s[pos]);
        replace_all_into(s, from, to, pos + 1, out);
        proof {
            assert(before + seq![s@[pos as int]] + replaced_all(s@.skip(pos + 1 as int), from@, to@)
                =~= before + (seq![s@[pos as int]] + replaced_all(
                s@.skip(pos + 1 as int),
                from@,
                to@,
            )));
        }
    }
}

/// The text with every occurrence of `from` replaced by `to`.
pub fn replace_all(s: &Vec<char>, from: &Vec<char>, to: &Vec<char>) -> (r: Vec<char>)
    ensures
        r@ == replaced_all(s@, from@, to@),
{
    if from.len() == 0 {
        let mut out: Vec<char> = Vec::new();
        append_chars(&mut out, s);
        return out;
    }
    let mut out: Vec<char> = Vec::new();
    replace_all_into(s, from, to, 0, &mut out);
    proof {
        assert(s@.skip(0) =~= s@);
    }
    out
}

/// The position of the leftmost occurrence of `from` in `s`, meaningful when
/// one exists.
pub open spec fn first_hit(s: Seq<char>, from: Seq<char>) -> int
    decreases s.len(),
{
    if match_at(s, from, 0) {
        0
    } else if s.len() == 0 {
        0
    } else {
        1 + first_hit(s.drop_first(), from)
    }
}

pub proof fn lemma_first_hit(s: Seq<char>, from: Seq<char>)
    requires
        contains_seq(s, from),
    ensures
        match_at(s, from, first_hit(s, from)),
        forall|k: int| 0 <= k < first_hit(s, from) ==> !match_at(s, from, k),
    decreases s.len(),
{
    if match_at(s, from, 0) {
    } else {
        let w = choose|i: int| match_at(s, from, i);
        assert(w != 0);
        assert(s.len() > 0);
        lemma_match_shift(s, from, 1, w - 1);
        assert(s.skip(1) =~= s.drop_first());
        assert(match_at(s.drop_first(), from, w - 1));
        lemma_first_hit(s.drop_first(), from);
        let h = first_hit(s.drop_first(), from);
        lemma_match_shift(s, from, 1, h);
        assert(match_at(s, from, first_hit(s, from)));
        assert forall|k: int| 0 <= k < first_hit(s, from) implies !match_at(s, from, k) by {
            if k > 0 {
                lemma_match_shift(s, from, 1, k - 1);
            }
        }
    }
}

/// The text with the leftmost occurrence of `from`, if any, replaced by `to`.
pub open spec fn replaced_first(s: Seq<char>, from: Seq<char>, to: Seq<char>) -> Seq<char> {
    if contains_seq(s, from) {
        let i = first_hit(s, from);
        s.subrange(0, i) + to + s.skip(i + from.len() as int)
    } else {
        s
    }
}

/// The text with the leftmost occurrence of `from` replaced by `to`.
pub fn replace_first(s: &Vec<char>, from: &Vec<char>, to: &Vec<char>) -> (r: Vec<char>)
    ensures
        r@ == replaced_first(s@, from@, to@),
{
    match find_first(s, from) {
        Some(i) => {
            proof {
                lemma_first_hit(s@, from@);
                let h = first_hit(s@, from@);
                assert(!(h < i) && !(i < h)) by {
                    if h < i as int {
                        assert(!match_at(s@, from@, h));
                    }
                    if (i as int) < h {
                        assert(!match_at(s@, from@, i as int));
                    }
                }
                assert(h == i as int);
            }
            let mut out: Vec<char> = Vec::new();
            let mut k: usize = 0;
            while k < i
                invariant
                    k <= i <= s@.len(),
                    out@ == s@.subrange(0, k as int),
                decreases i - k,
            {
                out.push(s[k]);
                proof {
                    assert(out@ =~= s@.subrange(0, k + 1 as int));
                }
                k = k + 1;
            }
            append_chars(&mut out, to);
            let n = s.len();
            proof {
                assert(i + from@.len() <= n);
            }
            let mut k2: usize = i + from.len();
            while k2 < s.len()
                invariant
                    i + from@.len() <= k2 <= s@.len(),
                    out@ == s@.subrange(0, i as int) + to@ + s@.subrange(
                        i + from@.len() as int,
                        k2 as int,
                    ),
                decreases s@.len() - k2,
            {
                let ghost before = out@;
                out.push(s[k2]);
                proof {
                    assert(before + seq![s@[k2 as int]] =~= s@.subrange(0, i as int) + to@
                        + s@.subrange(i + from@.len() as int, k2 + 1 as int));
                }
                k2 = k2 + 1;
            }
            proof {
                assert(s@.subrange(i + from@.len() as int, s@.len() as int) =~= s@.skip(i
                    + from@.len() as int));
                assert(s@.subrange(0, i as int) + to@ + s@.subrange(i as int, i as int) =~= s@
                    .subrange(0, i as int) + to@);
            }
            out
        },
        None => {
            let mut out: Vec<char> = Vec::new();
            append_chars(&mut out, s);
            out
        },
    }
}

/// The decimal digit character for a value below ten.
pub open spec fn dec_digit(d: int) -> char {
    ((48 + d) as u32) as char
}

/// The decimal representation of a natural number, most significant digit
/// first, without leading zeroes.
pub open spec fn dec_rep(n: nat) -> Seq<char>
    decreases n,
{
    if n < 10 {
        seq![dec_digit(n as int)]
    } else {
        dec_rep(n / 10).push(dec_digit((n % 10) as int))
    }
}

/// The decimal representation of `n`, as a string.
pub fn u64_to_dec(n: u64) -> (r: String)
    ensures
        r@ == dec_rep(n as nat),
    decreases n,
{
    let digit = (((48 + (n % 10)) as u8) as char);
    if n < 10 {
        let mut s = String::new();
        push_char(&mut s, digit);
        s
    } else {
        let mut s = u64_to_dec(n / 10);
        push_char(&mut s, digit);
        s
    }
}

/// Whether every character is a decimal digit.
pub open spec fn is_digits(s: Seq<char>) -> bool {
    forall|i: int| 0 <= i < s.len() ==> 48 <= (#[trigger] s[i]) as u32 <= 57
}

/// The number written by a digit string, most significant digit first.
pub open spec fn dec_value(s: Seq<char>) -> int
    decreases s.len(),
{
    if s.len() == 0 {
        0
    } else {
        dec_value(s.drop_last()) * 10 + ((s.last() as u32) - 48)
    }
}

/// A digit string never writes a smaller number than any of its prefixes.
proof fn lemma_dec_value_prefix_le(s: Seq<char>, i: int)
    requires
        0 <= i <= s.len(),
        is_digits(s),
    ensures
        dec_value(s.subrange(0, i)) <= dec_value(s),
        dec_value(s) >= 0,
    decreases s.len() - i,
{
    if i == s.len() {
        assert(s.subrange(0, i) =~= s);
        lemma_dec_value_nonneg(s);
    } else {
        lemma_dec_value_prefix_le(s, i + 1);
        assert(s.subrange(0, i + 1).drop_last() =~= s.subrange(0, i));
        lemma_dec_value_nonneg(s.subrange(0, i));
    }
}

proof fn lemma_dec_value_nonneg(s: Seq<char>)
    requires
        is_digits(s),
    ensures
        dec_value(s) >= 0,
    decreases s.len(),
{
    if s.len() > 0 {
        assert(is_digits(s.drop_last()));
        lemma_dec_value_nonneg(s.drop_last());
    }
}

/// Reads a decimal number: every character must be a digit, at least one
/// character must be present, and the value must fit in a `u64`.
pub fn parse_u64(s: &str) -> (r: Option<u64>)
    ensures
        match r {
            Some(v) => s@.len() > 0 && is_digits(s@) && v as int == dec_value(s@),
            None => s@.len() == 0 || !is_digits(s@) || dec_value(s@) > u64::MAX,
        },
{
    let cs = chars_vec(s);
    let n = cs.len();
    if n == 0 {
        return None;
    }
    let mut acc: u64 = 0;
    let mut i: usize = 0;
    while i < n
        invariant
            i <= n,
            n == cs@.len(),
            cs@ == s@,
            is_digits(cs@.subrange(0, i as int)),
            acc as int == dec_value(cs@.subrange(0, i as int)),
        decreases n - i,
    {
        let c = cs[i];
        let cu = c as u32;
        if cu < 48 || cu > 57 {
            return None;
        }
        let d = (cu - 48) as u64;
        proof {
            assert(cs@.subrange(0, i + 1 as int).drop_last() =~= cs@.subrange(0, i as int));
        }
        let shifted = match acc.checked_mul(10) {
            Some(m) => m,
            None => {
                proof {
                    assert(is_digits(cs@.subrange(0, i + 1 as int)));
                    if is_digits(cs@) {
                        lemma_dec_value_prefix_le(cs@, i + 1);
                    }
                }
                return None;
            },
        };
        let next = match shifted.checked_add(d) {
            Some(a) => a,
            None => {
                proof {
                    assert(is_digits(cs@.subrange(0, i + 1 as int)));
                    if is_digits(cs@) {
                        lemma_dec_value_prefix_le(cs@, i + 1);
                    }
                }
                return None;
            },
        };
        acc = next;
        i = i + 1;
    }
    proof {
        assert(cs@.subrange(0, n as int) =~= cs@);
    }
    Some(acc)
}

/// Lexicographic order on character sequences by code point, with a prefix
/// ordered before its extensions.
pub open spec fn lex_le(a: Seq<char>, b: Seq<char>) -> bool
    decreases a.len(),
{
    if a.len() == 0 {
        true
    } else if b.len() == 0 {
        false
    } else if (a[0] as u32) < (b[0] as u32) {
        true
    } else if (a[0] as u32) > (b[0] as u32) {
        false
    } else {
        lex_le(a.drop_first(), b.drop_first())
    }
}

/// Any two character sequences are comparable.
pub proof fn lemma_lex_le_total(a: Seq<char>, b: Seq<char>)
    ensures
        lex_le(a, b) || lex_le(b, a),
    decreases a.len(),
{
    if a.len() > 0 && b.len() > 0 && (a[0] as u32) == (b[0] as u32) {
        lemma_lex_le_total(a.drop_first(), b.drop_first());
    }
}

/// The order chains.
pub proof fn lemma_lex_le_trans(a: Seq<char>, b: Seq<char>, c: Seq<char>)
    requires
        lex_le(a, b),
        lex_le(b, c),
    ensures
        lex_le(a, c),
    decreases a.len(),
{
    if a.len() > 0 && b.len() > 0 && c.len() > 0 && (a[0] as u32) == (b[0] as u32) && (b[0] as u32)
        == (c[0] as u32) {
        lemma_lex_le_trans(a.drop_first(), b.drop_first(), c.drop_first());
    }
}

/// Whether `a` is lexicographically at most `b`.
pub fn str_le(a: &str, b: &str) -> (r: bool)
    ensures
        r == lex_le(a@, b@),
{
    let av = chars_vec(a);
    let bv = chars_vec(b);
    let an = av.len();
    let bn = bv.len();
    let mut i: usize = 0;
    proof {
        assert(a@.skip(0) =~= a@);
        assert(b@.skip(0) =~= b@);
    }
    while i < an && i < bn
        invariant
            an == a@.len(),
            bn == b@.len(),
            av@ == a@,
            bv@ == b@,
            i <= an,
            i <= bn,
            lex_le(a@, b@) == lex_le(a@.skip(i as int), b@.skip(i as int)),
        decreases an - i,
    {
        proof {
            assert(a@.skip(i as int)[0] == a@[i as int]);
            assert(b@.skip(i as int)[0] == b@[i as int]);
            assert(a@.skip(i as int).drop_first() =~= a@.skip(i + 1 as int));
            assert(b@.skip(i as int).drop_first() =~= b@.skip(i + 1 as int));
        }
        let ca = av[i] as u32;
        let cb = bv[i] as u32;
        if ca < cb {
            return true;
        }
        if ca > cb {
            return false;
        }
        i = i + 1;
    }
    proof {
        if i < bn {
            assert(a@.skip(i as int).len() == 0);
        } else if i < an {
            assert(a@.skip(i as int).len() > 0 && b@.skip(i as int).len() == 0);
        } else {
            assert(a@.skip(i as int).len() == 0);
        }
    }
    an <= bn
}

} // verus!
