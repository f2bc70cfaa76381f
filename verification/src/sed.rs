//! A stream editor: a substitution pattern parsed from `s|old|new|flag`
//! form, applied line by line to a text.
use crate::text::{
    chars_vec, contains_chars, contains_seq, join_chars, joined, lines_of, replace_all,
    replace_first, replaced_all, replaced_first, split_by, split_chars, split_lines,
    string_from_chars,
};
use vstd::prelude::*;

verus! {

/// A parsed substitution: replace `oldstring` by `newstring` in `file`,
/// everywhere on a line when `flag` is `g`, else once per line.
#[derive(Debug)]
pub struct Sed {
    pub oldstring: String,
    pub newstring: String,
    pub flag: String,
    pub file: String,
}

impl Sed {
    /// Parses a `s|old|new|flag` pattern: exactly four pipe-separated parts,
    /// of which the last three are kept.
    pub fn new(pattern: String, file: String) -> (r: Result<Sed, &'static str>)
        ensures
            split_by(pattern@, '|').len() == 4 ==> (r matches Ok(s) && s.oldstring@ == split_by(
                pattern@,
                '|',
            )[1] && s.newstring@ == split_by(pattern@, '|')[2] && s.flag@ == split_by(
                pattern@,
                '|',
            )[3] && s.file@ == file@),
            split_by(pattern@, '|').len() != 4 ==> (r matches Err(m) && m@
                == "Pattern should have pipes '|' characters as a splitters and should have 4 parts, (s, oldstring, newstring, flag)"@),
    {
        let cs = chars_vec(pattern.as_str());
        let parts = split_chars(&cs, '|');
        if parts.len() == 4 {
            let oldstring = string_from_chars(&parts[1]);
            let newstring = string_from_chars(&parts[2]);
            let flag = string_from_chars(&parts[3]);
            Ok(Sed { oldstring, newstring, flag, file })
        } else {
            Err(
                "Pattern should have pipes '|' characters as a splitters and should have 4 parts, (s, oldstring, newstring, flag)",
            )
        }
    }
}

/// One line after substitution: lines that do not contain the pattern are
/// kept, the others have every occurrence replaced under the `g` flag and
/// only the first one otherwise.
pub open spec fn edited_line(l: Seq<char>, from: Seq<char>, to: Seq<char>, global: bool) -> Seq<
    char,
> {
    if !contains_seq(l, from) {
        l
    } else if global {
        replaced_all(l, from, to)
    } else {
        replaced_first(l, from, to)
    }
}

/// Every line of `content` after substitution, joined back with line feeds.
pub fn stream_editor(content: &String, sed_struct: &Sed) -> (r: String)
    ensures
        r@ == joined(
            lines_of(content@).map_values(
                |l: Seq<char>| edited_line(
                    l,
                    sed_struct.oldstring@,
                    sed_struct.newstring@,
                    sed_struct.flag@ == "g"@,
                ),
            ),
            '\n',
        ),
{
    let ghost from = sed_struct.oldstring@;
    let ghost to = sed_struct.newstring@;
    let ghost global = sed_struct.flag@ == "g"@;
    let lines = split_lines(content.as_str());
    let old_v = chars_vec(sed_struct.oldstring.as_str());
    let new_v = chars_vec(sed_struct.newstring.as_str());
    let is_global = crate::text::str_eq(sed_struct.flag.as_str(), "g");
    let mut edited: Vec<Vec<char>> = Vec::new();
    let mut i: usize = 0;
    while i < lines.len()
        invariant
            i <= lines@.len(),
            lines.deep_view() == lines_of(content@),
            lines.deep_view().len() == lines@.len(),
            old_v@ == from,
            new_v@ == to,
            is_global == global,
            edited.deep_view().len() == i as int,
            forall|k: int| 0 <= k < i ==> edited.deep_view()[k] == edited_line(
                lines.deep_view()[k],
                from,
                to,
                global,
            ),
        decreases lines@.len() - i,
    {
        let lv = chars_vec(lines[i].as_str());
        let new_line: Vec<char> = if contains_chars(&lv, &old_v) {
            if is_global {
                replace_all(&lv, &old_v, &new_v)
            } else {
                replace_first(&lv, &old_v, &new_v)
            }
        } else {
            lv
        };
        proof {
            assert(new_line@ == edited_line(lines.deep_view()[i as int], from, to, global));
        }
        let ghost prev = edited.deep_view();
        let ghost nl = new_line@;
        edited.push(new_line);
        proof {
            assert(edited.deep_view() =~~= prev + seq![nl]);
        }
        i = i + 1;
    }
    let joined_chars = join_chars(&edited, '\n');
    proof {
        assert(edited.deep_view() =~= lines_of(content@).map_values(
            |l: Seq<char>| edited_line(l, from, to, global),
        ));
    }
    string_from_chars(&joined_chars)
}

/// The pattern and the file name drawn from the argument list: the first
/// argument names the program and is skipped.
pub fn distribute_args(args: Vec<String>) -> (r: Result<(String, String), &'static str>)
    ensures
        args@.len() > 2 ==> (r matches Ok(p) && p.0@ == args@[1]@ && p.1@ == args@[2]@),
        args@.len() <= 2 ==> (r matches Err(m) && m@
            == "You have to pass at least three arguments. <cargo run> <pattern> <file> [optional_output_file]"@),
{
    if args.len() > 2 {
        Ok((args[1].clone(), args[2].clone()))
    } else {
        Err(
            "You have to pass at least three arguments. <cargo run> <pattern> <file> [optional_output_file]",
        )
    }
}

} // verus!
