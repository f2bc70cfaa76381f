//! Line search: the lines of a text that contain a pattern, with a
//! case-sensitive and a case-insensitive variant.
use crate::text::{
    chars_vec, contains_chars, contains_seq, lines_of, lower_of, split_lines, to_lower,
};
use vstd::prelude::*;

verus! {

/// What a search run needs: the pattern, the file to read, and whether case
/// matters.
#[derive(Debug)]
pub struct Config {
    pub string: String,
    pub filename: String,
    pub case_sensitive: bool,
}

impl Config {
    /// Reads the pattern and the file name from the argument list. Whether
    /// case matters comes from the caller, who owns the environment.
    pub fn new(args: &Vec<String>, case_sensitive: bool) -> (r: Result<Config, &'static str>)
        ensures
            args@.len() >= 3 ==> (r matches Ok(c) && c.string@ == args@[1]@ && c.filename@
                == args@[2]@ && c.case_sensitive == case_sensitive),
            args@.len() < 3 ==> (r matches Err(m) && m@ == "not enough arguments"@),
    {
        if args.len() < 3 {
            return Err("not enough arguments");
        }
        let string = args[1].clone();
        let filename = args[2].clone();
        Ok(Config { string, filename, case_sensitive })
    }
}

/// The lines of `contents` that contain `string`, in order.
pub fn search(string: &str, contents: &str) -> (r: Vec<String>)
    ensures
        r.deep_view() == lines_of(contents@).filter(|l: Seq<char>| contains_seq(l, string@)),
{
    let ghost pred = |l: Seq<char>| contains_seq(l, string@);
    let lines = split_lines(contents);
    let pat = chars_vec(string);
    let mut out: Vec<String> = Vec::new();
    let mut i: usize = 0;
    proof {
        reveal(Seq::filter);
        assert(lines.deep_view().subrange(0, 0) =~= Seq::<Seq<char>>::empty());
        assert(out.deep_view() =~= Seq::<Seq<char>>::empty().filter(pred));
    }
    while i < lines.len()
        invariant
            i <= lines@.len(),
            lines.deep_view() == lines_of(contents@),
            lines.deep_view().len() == lines@.len(),
            pat@ == string@,
            pred == (|l: Seq<char>| contains_seq(l, string@)),
            out.deep_view() == lines.deep_view().subrange(0, i as int).filter(pred),
        decreases lines@.len() - i,
    {
        let ghost prefix = lines.deep_view().subrange(0, i as int);
        let ghost l = lines.deep_view()[i as int];
        proof {
            reveal(Seq::filter);
            assert(lines.deep_view().subrange(0, i + 1 as int) =~= prefix + seq![l]);
            Seq::filter_distributes_over_add(prefix, seq![l], pred);
            assert(seq![l].drop_last() =~= Seq::<Seq<char>>::empty());
            assert(Seq::<Seq<char>>::empty().filter(pred) == Seq::<Seq<char>>::empty());
            assert(seq![l].last() == l);
            assert(Seq::<Seq<char>>::empty().push(l) =~= seq![l]);
            assert(seq![l].filter(pred) == if pred(l) {
                seq![l]
            } else {
                Seq::<Seq<char>>::empty()
            });
        }
        let lv = chars_vec(lines[i].as_str());
        if contains_chars(&lv, &pat) {
            let ghost prev = out.deep_view();
            out.push(lines[i].clone());
            proof {
                assert(out.deep_view() =~= prev + seq![l]);
            }
        } else {
            proof {
                assert(prefix.filter(pred) + Seq::<Seq<char>>::empty() =~= prefix.filter(pred));
            }
        }
        i = i + 1;
    }
    proof {
        assert(lines.deep_view().subrange(0, lines@.len() as int) =~= lines.deep_view());
    }
    out
}

/// The lines of `contents` that contain `string` when both are folded to
/// lower case, in order; the lines keep their original case.
pub fn search_case_insensitive(string: &str, contents: &str) -> (r: Vec<String>)
    ensures
        r.deep_view() == lines_of(contents@).filter(
            |l: Seq<char>| contains_seq(lower_of(l), lower_of(string@)),
        ),
{
    let ghost pred = |l: Seq<char>| contains_seq(lower_of(l), lower_of(string@));
    let lowered = to_lower(string);
    let lines = split_lines(contents);
    let pat = chars_vec(lowered.as_str());
    let mut out: Vec<String> = Vec::new();
    let mut i: usize = 0;
    proof {
        reveal(Seq::filter);
        assert(lines.deep_view().subrange(0, 0) =~= Seq::<Seq<char>>::empty());
        assert(out.deep_view() =~= Seq::<Seq<char>>::empty().filter(pred));
    }
    while i < lines.len()
        invariant
            i <= lines@.len(),
            lines.deep_view() == lines_of(contents@),
            lines.deep_view().len() == lines@.len(),
            pat@ == lower_of(string@),
            pred == (|l: Seq<char>| contains_seq(lower_of(l), lower_of(string@))),
            out.deep_view() == lines.deep_view().subrange(0, i as int).filter(pred),
        decreases lines@.len() - i,
    {
        let ghost prefix = lines.deep_view().subrange(0, i as int);
        let ghost l = lines.deep_view()[i as int];
        proof {
            reveal(Seq::filter);
            assert(lines.deep_view().subrange(0, i + 1 as int) =~= prefix + seq![l]);
            Seq::filter_distributes_over_add(prefix, seq![l], pred);
            assert(seq![l].drop_last() =~= Seq::<Seq<char>>::empty());
            assert(Seq::<Seq<char>>::empty().filter(pred) == Seq::<Seq<char>>::empty());
            assert(seq![l].last() == l);
            assert(Seq::<Seq<char>>::empty().push(l) =~= seq![l]);
            assert(seq![l].filter(pred) == if pred(l) {
                seq![l]
            } else {
                Seq::<Seq<char>>::empty()
            });
        }
        let lower_line = to_lower(lines[i].as_str());
        let lv = chars_vec(lower_line.as_str());
        if contains_chars(&lv, &pat) {
            let ghost prev = out.deep_view();
            out.push(lines[i].clone());
            proof {
                assert(out.deep_view() =~= prev + seq![l]);
            }
        } else {
            proof {
                assert(prefix.filter(pred) + Seq::<Seq<char>>::empty() =~= prefix.filter(pred));
            }
        }
        i = i + 1;
    }
    proof {
        assert(lines.deep_view().subrange(0, lines@.len() as int) =~= lines.deep_view());
    }
    out
}

} // verus!
