//! Line search: which lines of a text hold a query, with or without regard
//! to case.

use crate::text::{contains, lines_of, lowercase, lowercase_of, occurs_in, split_lines};
use vstd::prelude::*;
use vstd::std_specs::iter::IteratorSpec;
use vstd::string::StringExecFns;

verus! {

/// The lines among `lines` that hold `pattern`, in their order.
pub open spec fn matching(pattern: Seq<char>, lines: Seq<Seq<char>>) -> Seq<Seq<char>> {
    lines.filter(|line: Seq<char>| occurs_in(pattern, line))
}

/// The lines among `lines` whose lower-case form holds `pattern`, in their
/// order.
pub open spec fn matching_folded(pattern: Seq<char>, lines: Seq<Seq<char>>) -> Seq<Seq<char>> {
    lines.filter(|line: Seq<char>| occurs_in(pattern, lowercase_of(line)))
}

/// The lines among `lines` whose key holds `pattern`, in their order. The key
/// of a line is the entry of `keys` at the line's position; a line without a
/// key is left out.
pub open spec fn picked(pattern: Seq<char>, lines: Seq<Seq<char>>, keys: Seq<Seq<char>>) -> Seq<
    Seq<char>,
>
    decreases lines.len(),
{
    if lines.len() == 0 {
        Seq::empty()
    } else {
        let last = lines.len() - 1;
        let before = picked(pattern, lines.drop_last(), keys);
        if last < keys.len() && occurs_in(pattern, keys[last]) {
            before.push(lines[last])
        } else {
            before
        }
    }
}

/// Whether the value of the case switch turns it on: it does when it is
/// the single character `1`.
pub open spec fn switch_is_on(value: Option<Seq<char>>) -> bool {
    value == Some(seq!['1'])
}

/// Picking by keys that are the lower-case forms of the lines is matching
/// without regard to case.
pub proof fn lemma_picked_by_lowercase(
    pattern: Seq<char>,
    lines: Seq<Seq<char>>,
    keys: Seq<Seq<char>>,
    n: int,
)
    requires
        0 <= n <= lines.len(),
        n <= keys.len(),
        forall|i: int| 0 <= i < n ==> keys[i] == lowercase_of(#[trigger] lines[i]),
    ensures
        picked(pattern, lines.take(n), keys) == matching_folded(pattern, lines.take(n)),
    decreases n,
{
    reveal(Seq::filter);
    if n > 0 {
        lemma_picked_by_lowercase(pattern, lines, keys, n - 1);
        assert(lines.take(n).drop_last() =~= lines.take(n - 1));
        assert(lines.take(n).last() == lines[n - 1]);
    }
}

/// From `lines`, the ones whose key holds `pattern`, in their order. The key
/// of a line is the entry of `keys` at the same position; a line that has no
/// key is left out.
pub fn select_lines<'a>(pattern: &str, lines: &Vec<&'a str>, keys: &Vec<String>) -> (found: Vec<
    &'a str,
>)
    ensures
        found.deep_view() == picked(pattern@, lines.deep_view(), keys.deep_view()),
{
    let mut found: Vec<&'a str> = Vec::new();
    let mut i: usize = 0;
    assert(lines.deep_view().take(0) =~= Seq::<Seq<char>>::empty());
    while i < lines.len()
        invariant
            i <= lines.len(),
            found.deep_view() == picked(
                pattern@,
                lines.deep_view().take(i as int),
                keys.deep_view(),
            ),
        decreases lines.len() - i,
    {
        let ghost before = found.deep_view();
        let line = lines[i];
        let keep = i < keys.len() && contains(keys[i].as_str(), pattern);
        if keep {
            found.push(line);
            assert(found.deep_view() =~= before.push(line@));
        }
        proof {
            let all = lines.deep_view();
            assert(all.take(i + 1).drop_last() =~= all.take(i as int));
            assert(all.take(i + 1).last() == line@);
            if i < keys.len() {
                assert(keys.deep_view()[i as int] == keys[i as int]@);
            }
        }
        i += 1;
    }
    assert(lines.deep_view().take(lines.len() as int) =~= lines.deep_view());
    found
}

/// What to search for, where, and how.
pub struct Config {
    query: String,
    path: String,
    case_insensitive: bool,
}

impl Config {
    /// The text to search for.
    pub closed spec fn query_text(&self) -> Seq<char> {
        self.query@
    }

    /// The path of the file to search in.
    pub closed spec fn path_text(&self) -> Seq<char> {
        self.path@
    }

    /// Whether the search disregards case.
    pub closed spec fn folds_case(&self) -> bool {
        self.case_insensitive
    }

    /// The lines of `content` that this configuration selects.
    pub open spec fn selection(&self, content: Seq<char>) -> Seq<Seq<char>> {
        if self.folds_case() {
            matching_folded(lowercase_of(self.query_text()), lines_of(content))
        } else {
            matching(self.query_text(), lines_of(content))
        }
    }

    /// Whether `value`, the setting of the case switch, turns it on.
    pub fn switch(value: &Option<String>) -> (on: bool)
        ensures
            on == switch_is_on(
                match value {
                    Some(text) => Some(text@),
                    None => None,
                },
            ),
    {
        proof {
            reveal_strlit("1");
        }
        match value {
            Some(text) => {
                let one = String::from_str("1");
                assert(one@ =~= seq!['1']);
                *text == one
            },
            None => false,
        }
    }

    /// Reads a configuration from the arguments of a command line: the
    /// program's name, which is skipped, then the query, then the path.
    /// `insensitive` is the setting of the case switch in the environment, if
    /// it has one. The query and the path have to be there.
    pub fn new<T: Iterator<Item = String>>(args: T, insensitive: Option<String>) -> (config:
        Config)
        requires
            args.obeys_prophetic_iter_laws(),
            args.remaining().len() >= 3,
        ensures
            config.query_text() == args.remaining()[1]@,
            config.path_text() == args.remaining()[2]@,
            config.folds_case() == switch_is_on(
                match insensitive {
                    Some(text) => Some(text@),
                    None => None,
                },
            ),
    {
        let mut args = args;
        args.next();
        let query = args.next().unwrap();
        let path = args.next().unwrap();
        let case_insensitive = Self::switch(&insensitive);
        Config { query, path, case_insensitive }
    }

    /// Reads a configuration from the arguments of a command line, as `new`
    /// does, and says what is missing where the query or the path is.
    pub fn build<T: Iterator<Item = String>>(args: T, insensitive: Option<String>) -> (result:
        Result<Config, &'static str>)
        ensures
            args.obeys_prophetic_iter_laws() ==> match result {
                Ok(config) => {
                    &&& args.remaining().len() >= 3
                    &&& config.query_text() == args.remaining()[1]@
                    &&& config.path_text() == args.remaining()[2]@
                    &&& config.folds_case() == switch_is_on(
                        match insensitive {
                            Some(text) => Some(text@),
                            None => None,
                        },
                    )
                },
                Err(message) => {
                    &&& args.remaining().len() < 3
                    &&& args.remaining().len() < 2 ==> message@ == "Did not get a query string"@
                    &&& args.remaining().len() == 2 ==> message@ == "Did not get a path string"@
                },
            },
    {
        let mut args = args;
        args.next();
        let query = match args.next() {
            Some(query) => query,
            None => {
                return Err("Did not get a query string");
            },
        };
        let path = match args.next() {
            Some(path) => path,
            None => {
                return Err("Did not get a path string");
            },
        };
        let case_insensitive = Self::switch(&insensitive);
        Ok(Config { query, path, case_insensitive })
    }

    /// The text to search for.
    pub fn query(&self) -> (query: &str)
        ensures
            query@ == self.query_text(),
    {
        self.query.as_str()
    }

    /// The path of the file to search in.
    pub fn path(&self) -> (path: &str)
        ensures
            path@ == self.path_text(),
    {
        self.path.as_str()
    }

    /// Whether the search disregards case.
    pub fn case_insensitive(&self) -> (folds: bool)
        ensures
            folds == self.folds_case(),
    {
        self.case_insensitive
    }

    /// Searches `content`, the text of the file, as configured, and returns
    /// the lines to print, in their order.
    pub fn run<'a>(&self, content: &'a str) -> (found: Vec<&'a str>)
        ensures
            found.deep_view() == self.selection(content@),
    {
        if self.case_insensitive {
            Self::search_case_insensitive(self.query.as_str(), content)
        } else {
            Self::search_case_sensitive(self.query.as_str(), content)
        }
    }

    /// The lines of `contents` that hold `query`, in their order.
    pub fn search_case_sensitive<'a>(query: &str, contents: &'a str) -> (found: Vec<&'a str>)
        ensures
            found.deep_view() == matching(query@, lines_of(contents@)),
    {
        let lines = split_lines(contents);
        let mut found: Vec<&'a str> = Vec::new();
        let mut i: usize = 0;
        assert(lines.deep_view().take(0) =~= Seq::<Seq<char>>::empty());
        proof {
            reveal(Seq::filter);
        }
        while i < lines.len()
            invariant
                i <= lines.len(),
                found.deep_view() == matching(query@, lines.deep_view().take(i as int)),
            decreases lines.len() - i,
        {
            let ghost before = found.deep_view();
            let line = lines[i];
            if contains(line, query) {
                found.push(line);
                assert(found.deep_view() =~= before.push(line@));
            }
            proof {
                let all = lines.deep_view();
                assert(all.take(i + 1) =~= all.take(i as int).push(line@));
                all.take(i as int).lemma_filter_push(
                    line@,
                    |line: Seq<char>| occurs_in(query@, line),
                );
            }
            i += 1;
        }
        assert(lines.deep_view().take(lines.len() as int) =~= lines.deep_view());
        found
    }

    /// The lines of `contents` that hold `query` when case is disregarded:
    /// those whose lower-case form holds the lower-case form of `query`.
    pub fn search_case_insensitive<'a>(query: &str, contents: &'a str) -> (found: Vec<&'a str>)
        ensures
            found.deep_view() == matching_folded(lowercase_of(query@), lines_of(contents@)),
    {
        let pattern = lowercase(query);
        let lines = split_lines(contents);
        let mut keys: Vec<String> = Vec::new();
        let mut i: usize = 0;
        while i < lines.len()
            invariant
                i <= lines.len(),
                keys@.len() == i,
                forall|k: int| 0 <= k < i ==> (#[trigger] keys@[k])@ == lowercase_of(lines@[k]@),
            decreases lines.len() - i,
        {
            keys.push(lowercase(lines[i]));
            i += 1;
        }
        let found = select_lines(pattern.as_str(), &lines, &keys);
        proof {
            let all = lines.deep_view();
            assert forall|k: int| 0 <= k < all.len() implies keys.deep_view()[k] == lowercase_of(
                #[trigger] all[k],
            ) by {
                assert(keys@[k]@ == lowercase_of(lines@[k]@));
            }
            lemma_picked_by_lowercase(pattern@, all, keys.deep_view(), all.len() as int);
            assert(all.take(all.len() as int) =~= all);
        }
        found
    }
}

} // verus!
