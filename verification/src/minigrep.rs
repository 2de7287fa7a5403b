//! Line search: which lines of a text hold a query, with or without regard to case.

use crate::text::{contains, lines, lines_of, occurs, views};
use vstd::prelude::*;

verus! {

/// What to search for, where, and how.
pub struct Config {
    pub query: String,
    pub file_path: String,
    pub ignore_case: bool,
}

/// The complaint about a command line without a query.
pub open spec fn missing_query() -> Seq<char> {
    "Search string is not defined in params"@
}

/// The complaint about a command line without a file path.
pub open spec fn missing_file_path() -> Seq<char> {
    "File path is not defined in params"@
}

impl Config {
    /// The configuration that a command line asks for. The first argument is the
    /// program's own name; the query and the file path follow it. Case is ignored
    /// where a further argument is given, whatever it says, or where the environment
    /// asks for it.
    pub fn build(args: Vec<String>, ignore_case_env: bool) -> (built: Result<Config, &'static str>)
        ensures
            args@.len() < 2 ==> built is Err && built->Err_0@ == missing_query(),
            args@.len() == 2 ==> built is Err && built->Err_0@ == missing_file_path(),
            args@.len() >= 3 ==> built is Ok && built->Ok_0.query == args@[1]
                && built->Ok_0.file_path == args@[2] && built->Ok_0.ignore_case == (args@.len() > 3
                || ignore_case_env),
    {
        let mut args = args;
        if args.len() < 2 {
            return Err("Search string is not defined in params");
        }
        if args.len() < 3 {
            return Err("File path is not defined in params");
        }
        let ignore_case = args.len() > 3 || ignore_case_env;
        let file_path = args.remove(2);
        let query = args.remove(1);
        Ok(Config { query, file_path, ignore_case })
    }
}

/// The lines of `contents` in which `query` occurs, in their order.
pub open spec fn matching_lines(query: Seq<char>, contents: Seq<char>) -> Seq<Seq<char>> {
    lines_of(contents).filter(|line: Seq<char>| occurs(line, query))
}

/// The lines of `contents` whose lower-case form holds the lower-case form of
/// `query`, in their order.
pub open spec fn matching_lines_ignoring_case(query: Seq<char>, contents: Seq<char>) -> Seq<
    Seq<char>,
> {
    lines_of(contents).filter(|line: Seq<char>| occurs(lowercase(line), lowercase(query)))
}

/// Every line that a search finds is a line of the contents and holds the query.
pub proof fn lemma_found_lines_match(query: Seq<char>, contents: Seq<char>)
    ensures
        forall|k: int|
            0 <= k < matching_lines(query, contents).len() ==> lines_of(contents).contains(
                #[trigger] matching_lines(query, contents)[k],
            ) && occurs(matching_lines(query, contents)[k], query),
        matching_lines(query, contents).len() <= lines_of(contents).len(),
{
    let keep = |line: Seq<char>| occurs(line, query);
    let all = lines_of(contents);
    let found = all.filter(keep);
    all.lemma_filter_len(keep);
    assert forall|k: int| 0 <= k < found.len() implies all.contains(#[trigger] found[k])
        && occurs(found[k], query) by {
        assert(found.contains(found[k]));
        all.lemma_filter_contains_rev(keep, found[k]);
        all.lemma_filter_pred(keep, k);
    }
}

/// The lower-case form of a text.
pub uninterp spec fn lowercase(text: Seq<char>) -> Seq<char>;

/// `str::to_lowercase` of the standard library: the lower-case form of a text as
/// Unicode defines it. The form depends on the characters alone; nothing is
/// claimed of it but that equal texts have equal forms.
#[verifier::external_body]
fn to_lowercase(text: &str) -> (lower: String)
    ensures
        lower@ == lowercase(text@),
{
    text.to_lowercase()
}

/// The lines of `contents` that hold `query`.
pub fn search<'a>(query: &str, contents: &'a str) -> (results: Vec<&'a str>)
    ensures
        views(results@) == matching_lines(query@, contents@),
{
    let all = lines(contents);
    let ghost keep = |line: Seq<char>| occurs(line, query@);
    let mut results: Vec<&'a str> = Vec::new();
    let mut i: usize = 0;
    proof {
        reveal(Seq::filter);
        assert(views(all@).take(0) =~= Seq::<Seq<char>>::empty());
        assert(views(results@) =~= views(all@).take(0).filter(keep));
    }
    while i < all.len()
        invariant
            0 <= i <= all.len(),
            keep == |line: Seq<char>| occurs(line, query@),
            views(results@) == views(all@).take(i as int).filter(keep),
        decreases all.len() - i,
    {
        let line = all[i];
        let ghost before = results@;
        let found = contains(line, query);
        if found {
            results.push(line);
        }
        proof {
            reveal(Seq::filter);
            let next = views(all@).take(i + 1);
            assert(next.drop_last() =~= views(all@).take(i as int));
            assert(next.last() == line@);
            assert(found ==> views(results@) =~= views(before).push(line@));
        }
        i += 1;
    }
    proof {
        assert(views(all@).take(all@.len() as int) =~= views(all@));
    }
    results
}

/// The lines of `contents` that hold `query` when upper and lower case count as the
/// same.
pub fn search_case_insensitive<'a>(query: &str, contents: &'a str) -> (results: Vec<&'a str>)
    ensures
        views(results@) == matching_lines_ignoring_case(query@, contents@),
{
    let query = to_lowercase(query);
    let all = lines(contents);
    let ghost keep = |line: Seq<char>| occurs(lowercase(line), query@);
    let mut results: Vec<&'a str> = Vec::new();
    let mut i: usize = 0;
    proof {
        reveal(Seq::filter);
        assert(views(all@).take(0) =~= Seq::<Seq<char>>::empty());
        assert(views(results@) =~= views(all@).take(0).filter(keep));
    }
    while i < all.len()
        invariant
            0 <= i <= all.len(),
            keep == |line: Seq<char>| occurs(lowercase(line), query@),
            views(results@) == views(all@).take(i as int).filter(keep),
        decreases all.len() - i,
    {
        let line = all[i];
        let ghost before = results@;
        let lower = to_lowercase(line);
        let found = contains(lower.as_str(), query.as_str());
        if found {
            results.push(line);
        }
        proof {
            reveal(Seq::filter);
            let next = views(all@).take(i + 1);
            assert(next.drop_last() =~= views(all@).take(i as int));
            assert(next.last() == line@);
            assert(found ==> views(results@) =~= views(before).push(line@));
        }
        i += 1;
    }
    proof {
        assert(views(all@).take(all@.len() as int) =~= views(all@));
    }
    results
}

/// The lines that a configured search finds in `contents`.
pub fn run<'a>(config: &Config, contents: &'a str) -> (results: Vec<&'a str>)
    ensures
        views(results@) == if config.ignore_case {
            matching_lines_ignoring_case(config.query@, contents@)
        } else {
            matching_lines(config.query@, contents@)
        },
{
    if config.ignore_case {
        search_case_insensitive(config.query.as_str(), contents)
    } else {
        search(config.query.as_str(), contents)
    }
}

} // verus!
