//! Searching the lines of a text for a query.
use vstd::prelude::*;

verus! {

/// The lines of a text, as `str::lines` splits it.
pub uninterp spec fn lines_of(s: Seq<char>) -> Seq<Seq<char>>;

/// The lower-case form of a text, as `str::to_lowercase` gives it.
pub uninterp spec fn lower_of(s: Seq<char>) -> Seq<char>;

/// How many disjoint matches of `pat` `str::matches` finds in `s`.
pub uninterp spec fn match_count(s: Seq<char>, pat: Seq<char>) -> nat;

/// Whether `needle` occurs in `hay` as a contiguous part.
pub open spec fn is_substring(needle: Seq<char>, hay: Seq<char>) -> bool {
    exists|i: int| 0 <= i <= hay.len() - needle.len() && #[trigger] hay.subrange(i, i + needle.len()) == needle
}

/// Relies on `str::lines`: splits a text into its lines, borrowed from it.
#[verifier::external_body]
fn split_lines<'a>(s: &'a str) -> (r: Vec<&'a str>)
    ensures
        r@.map_values(|l: &str| l@) == lines_of(s@),
{
    s.lines().collect()
}

/// Relies on `str::contains`: whether `needle` is a sub-slice of `hay`.
#[verifier::external_body]
fn contains_str(hay: &str, needle: &str) -> (r: bool)
    ensures
        r == is_substring(needle@, hay@),
{
    hay.contains(needle)
}

/// Relies on `str::to_lowercase`: the result depends on the text alone.
#[verifier::external_body]
fn lowercase(s: &str) -> (r: String)
    ensures
        r@ == lower_of(s@),
{
    s.to_lowercase()
}

/// Relies on `str::matches`: counts the disjoint matches of `pat` in `s`.
#[verifier::external_body]
fn count_matches(s: &str, pat: &str) -> (r: usize)
    ensures
        r == match_count(s@, pat@),
{
    s.matches(pat).count()
}

/// The lines that contain `query`, in order.
pub open spec fn lines_with(lines: Seq<Seq<char>>, query: Seq<char>) -> Seq<Seq<char>> {
    lines.filter(|l: Seq<char>| is_substring(query, l))
}

/// The lines whose lower-case form contains `query`, in order.
pub open spec fn lines_with_folded(lines: Seq<Seq<char>>, query: Seq<char>) -> Seq<Seq<char>> {
    lines.filter(|l: Seq<char>| is_substring(query, lower_of(l)))
}

/// The settings of a search.
pub struct Config {
    pub query: String,
    pub filename: String,
    pub case_sensitive: bool,
}

impl Config {
    /// Reads the query and the file name from the command line `args`,
    /// whose first entry is the program's name.
    pub fn new(args: Vec<String>, case_sensitive: bool) -> (r: Result<Config, &'static str>)
        ensures
            args@.len() < 2 ==> (r matches Err(e) && e@ == "No query provided!"@),
            args@.len() == 2 ==> (r matches Err(e) && e@ == "No filename provided!"@),
            args@.len() > 2 ==> (r matches Ok(c) && c.query@ == args@[1]@ && c.filename@
                == args@[2]@ && c.case_sensitive == case_sensitive),
    {
        if args.len() < 2 {
            return Err("No query provided!");
        }
        if args.len() < 3 {
            return Err("No filename provided!");
        }
        let query = args[1].clone();
        let filename = args[2].clone();
        Ok(Config { query, filename, case_sensitive })
    }
}

/// The lines of `lines` that contain `query`, in order.
pub fn lines_containing<'a>(lines: &Vec<&'a str>, query: &str) -> (r: Vec<&'a str>)
    ensures
        r@.map_values(|l: &str| l@) == lines_with(lines@.map_values(|l: &str| l@), query@),
{
    let ghost all = lines@.map_values(|l: &str| l@);
    let mut results: Vec<&'a str> = Vec::new();
    let mut i: usize = 0;
    while i < lines.len()
        invariant
            i <= lines@.len(),
            all == lines@.map_values(|l: &str| l@),
            results@.map_values(|l: &str| l@) == lines_with(all.take(i as int), query@),
        decreases lines@.len() - i,
    {
        let line = lines[i];
        let keep = contains_str(line, query);
        let ghost before = results@;
        proof {
            assert(all.take(i + 1).drop_last() =~= all.take(i as int));
            assert(all.take(i + 1).last() == line@);
            reveal_with_fuel(Seq::filter, 1);
        }
        if keep {
            results.push(line);
            assert(results@.map_values(|l: &str| l@) =~= before.map_values(|l: &str| l@).push(
                line@,
            ));
        }
        i = i + 1;
    }
    proof {
        assert(all.take(lines@.len() as int) =~= all);
    }
    results
}

/// The lines of `contents` that contain `query`, in order.
pub fn search<'a>(query: &str, contents: &'a str) -> (r: Vec<&'a str>)
    ensures
        r@.map_values(|l: &str| l@) == lines_with(lines_of(contents@), query@),
{
    let lines = split_lines(contents);
    lines_containing(&lines, query)
}

/// The lines of `contents` that contain `query`, ignoring case: a line is
/// kept when its lower-case form contains the lower-case query.
pub fn search_case_insensitive<'a>(query: &str, contents: &'a str) -> (r: Vec<&'a str>)
    ensures
        r@.map_values(|l: &str| l@) == lines_with_folded(lines_of(contents@), lower_of(query@)),
{
    let folded = lowercase(query);
    let lines = split_lines(contents);
    let ghost all = lines@.map_values(|l: &str| l@);
    let mut results: Vec<&'a str> = Vec::new();
    let mut i: usize = 0;
    while i < lines.len()
        invariant
            i <= lines@.len(),
            all == lines@.map_values(|l: &str| l@),
            folded@ == lower_of(query@),
            results@.map_values(|l: &str| l@) == lines_with_folded(
                all.take(i as int),
                lower_of(query@),
            ),
        decreases lines@.len() - i,
    {
        let line = lines[i];
        let lower_line = lowercase(line);
        let keep = contains_str(lower_line.as_str(), folded.as_str());
        let ghost before = results@;
        proof {
            assert(all.take(i + 1).drop_last() =~= all.take(i as int));
            assert(all.take(i + 1).last() == line@);
            reveal_with_fuel(Seq::filter, 1);
        }
        if keep {
            results.push(line);
            assert(results@.map_values(|l: &str| l@) =~= before.map_values(|l: &str| l@).push(
                line@,
            ));
        }
        i = i + 1;
    }
    proof {
        assert(all.take(lines@.len() as int) =~= all);
    }
    results
}

/// Whether `sub` occurs in `src`, ignoring case.
pub fn contain_substring(src: &str, sub: &str) -> (r: bool)
    ensures
        r == is_substring(lower_of(sub@), lower_of(src@)),
{
    let s = lowercase(src);
    let p = lowercase(sub);
    contains_str(s.as_str(), p.as_str())
}

/// How many disjoint times `sub` occurs in `src`, ignoring case, as an
/// `i32` (wrapping past its range).
pub fn count_substring(src: &str, sub: &str) -> (r: i32)
    ensures
        r == match_count(lower_of(src@), lower_of(sub@)) as i32,
{
    let s = lowercase(src);
    let p = lowercase(sub);
    let n = count_matches(s.as_str(), p.as_str());
    n as i32
}

} // verus!
