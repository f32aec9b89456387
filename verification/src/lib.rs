//! Checks that source files fail to compile in exactly the way their inline
//! annotations say they should.
//!
//! A test is a source file that the compiler must refuse. Comments in the
//! file say which messages the compiler must give, and at which lines. The
//! library reads those comments (`parse`), flattens the compiler's
//! diagnostics into messages (`json`), compares the two (`runner`), and
//! keeps the tally of a run (`status`).

pub mod compile;
pub mod config;
pub mod json;
pub mod parse;
pub mod runner;
pub mod status;
pub mod text;
pub mod utils;

pub use config::Config;

use vstd::prelude::*;
use crate::text::{same_text, strings_view};

verus! {

/// An entry of the directory of tests, as far as the search for tests reads
/// it.
#[derive(Debug)]
pub struct Entry {
    /// The path of the entry.
    pub path: String,
    /// The extension of the file name, without the dot, if it has one.
    pub extension: Option<String>,
    /// Whether the entry is a regular file.
    pub is_file: bool,
}

/// The model of an `Entry`.
pub struct EntryView {
    pub path: Seq<char>,
    pub extension: Option<Seq<char>>,
    pub is_file: bool,
}

impl View for Entry {
    type V = EntryView;

    open spec fn view(&self) -> EntryView {
        EntryView {
            path: self.path@,
            extension: match self.extension {
                Some(extension) => Some(extension@),
                None => None,
            },
            is_file: self.is_file,
        }
    }
}

/// The models of a sequence of entries.
pub open spec fn entries_view(entries: Seq<Entry>) -> Seq<EntryView> {
    entries.map_values(|e: Entry| e@)
}

/// Why the search for tests failed.
#[derive(Debug, PartialEq, Eq)]
pub enum DiscoveryError {
    /// The entry at `index` is named like a test but is no regular file.
    UnsupportedFileType { index: usize, path: String },
    /// The directory holds no test. This often means that the wrong
    /// directory was given.
    NoTests { dir: String },
}

/// The model of a `DiscoveryError`.
pub enum DiscoveryErrorView {
    UnsupportedFileType { index: nat, path: Seq<char> },
    NoTests { dir: Seq<char> },
}

impl View for DiscoveryError {
    type V = DiscoveryErrorView;

    open spec fn view(&self) -> DiscoveryErrorView {
        match *self {
            DiscoveryError::UnsupportedFileType { index, path } => {
                DiscoveryErrorView::UnsupportedFileType { index: index as nat, path: path@ }
            },
            DiscoveryError::NoTests { dir } => DiscoveryErrorView::NoTests { dir: dir@ },
        }
    }
}

/// The entry is named like a test: its extension is `rs`.
pub open spec fn is_test(entry: EntryView) -> bool {
    entry.extension == Some("rs"@)
}

/// The paths of the tests among the first `n` entries, in order, or the
/// first entry among them that is named like a test but is no regular file.
pub open spec fn tests_among(entries: Seq<EntryView>, n: nat) -> Result<
    Seq<Seq<char>>,
    DiscoveryErrorView,
>
    decreases n,
{
    if n == 0 {
        Ok(Seq::empty())
    } else {
        match tests_among(entries, (n - 1) as nat) {
            Err(e) => Err(e),
            Ok(before) => {
                let entry = entries[n - 1];
                if !is_test(entry) {
                    Ok(before)
                } else if !entry.is_file {
                    Err(
                        DiscoveryErrorView::UnsupportedFileType {
                            index: (n - 1) as nat,
                            path: entry.path,
                        },
                    )
                } else {
                    Ok(before.push(entry.path))
                }
            },
        }
    }
}

/// The tests that a directory holds. A directory without any test is an
/// error.
pub open spec fn tests_in(dir: Seq<char>, entries: Seq<EntryView>) -> Result<
    Seq<Seq<char>>,
    DiscoveryErrorView,
> {
    match tests_among(entries, entries.len()) {
        Err(e) => Err(e),
        Ok(tests) => if tests.len() == 0 {
            Err(DiscoveryErrorView::NoTests { dir })
        } else {
            Ok(tests)
        },
    }
}

/// The model of what the search for tests gives.
pub open spec fn discovery_view(r: Result<Vec<String>, DiscoveryError>) -> Result<
    Seq<Seq<char>>,
    DiscoveryErrorView,
> {
    match r {
        Ok(tests) => Ok(strings_view(tests@)),
        Err(e) => Err(e@),
    }
}

/// The search stops at the first entry it cannot take.
pub proof fn lemma_search_stops(entries: Seq<EntryView>, k: nat, n: nat)
    requires
        k <= n,
        tests_among(entries, k) is Err,
    ensures
        tests_among(entries, n) == tests_among(entries, k),
    decreases n,
{
    if k < n {
        lemma_search_stops(entries, k, (n - 1) as nat);
    }
}

/// Picks the tests among the entries of the configured directory: the
/// entries whose extension is `rs`.
pub fn find_tests(config: &Config, entries: &[Entry]) -> (r: Result<Vec<String>, DiscoveryError>)
    ensures
        discovery_view(r) == tests_in(config.cfail_path@, entries_view(entries@)),
{
    let ghost all = entries_view(entries@);
    let mut tests: Vec<String> = Vec::new();
    let mut i: usize = 0;
    assert(strings_view(tests@) =~= Seq::<Seq<char>>::empty());
    while i < entries.len()
        invariant
            i <= entries.len(),
            all == entries_view(entries@),
            tests_among(all, i as nat) == Ok::<Seq<Seq<char>>, DiscoveryErrorView>(
                strings_view(tests@),
            ),
        decreases entries.len() - i,
    {
        let entry = &entries[i];
        assert(all[i as int] == entry@);
        let named_like_test = match &entry.extension {
            Some(extension) => same_text(extension.as_str(), "rs"),
            None => false,
        };
        if named_like_test {
            let path = entry.path.as_str().to_owned();
            if !entry.is_file {
                proof {
                    lemma_search_stops(all, (i + 1) as nat, all.len());
                }
                return Err(DiscoveryError::UnsupportedFileType { index: i, path });
            }
            let ghost before = strings_view(tests@);
            tests.push(path);
            assert(strings_view(tests@) =~= before.push(path@));
        }
        i += 1;
    }
    if tests.len() == 0 {
        Err(
            DiscoveryError::NoTests {
                dir: config.cfail_path.as_str().to_owned(),
            },
        )
    } else {
        Ok(tests)
    }
}

} // verus!
