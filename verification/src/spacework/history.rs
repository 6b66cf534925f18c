//! The history of actions: one line per action, each after the time at
//! which it was written down.

use crate::error::{Error, Failure};
use crate::path::AbsolutePath;
use crate::spacework::workspace::Home;
use crate::text::{chars_of, lemma_texts_push, lines, split_lines, texts};
use vstd::prelude::*;
use vstd::string::*;

verus! {

/// The name of the history file, which lies in the user's home
/// directory.
pub const HISTFILE: &'static str = ".spacework_history";

/// What the first line of a new history says.
pub const GREETING: &'static str = "Hello hello, world!";

/// The history file.
#[derive(Debug, PartialEq, Eq)]
pub struct History {
    pub histfile: AbsolutePath,
}

/// The line that records `text` at the time `stamp`.
pub open spec fn entry_text(stamp: Seq<char>, text: Seq<char>) -> Seq<char> {
    stamp + " "@ + text + "\n"@
}

/// The last `last` of `all`, the newest first; all of them where there
/// are fewer.
pub open spec fn newest_first(all: Seq<Seq<char>>, last: nat) -> Seq<Seq<char>> {
    if last <= all.len() {
        all.reverse().take(last as int)
    } else {
        all.reverse()
    }
}

/// Reads the local time with `chrono::Local::now` and writes it out with
/// `DateTime::format` as date, `@`, time, `: `. What comes back depends
/// on the clock; whatever the time, it ends with the `: ` that ends the
/// format.
#[verifier::external_body]
fn timestamp() -> (stamp: String)
    ensures
        ": "@.is_suffix_of(stamp@),
{
    chrono::Local::now().format("%Y-%m-%d@%X: ").to_string()
}

impl History {
    /// The history of the user whose home directory is `home`. Without a
    /// home directory there is no history.
    pub fn new(home: Home) -> (made: Result<History, Error>)
        ensures
            match home {
                Home::Found(dir) => made is Ok && made->Ok_0.histfile@ == dir@.push(HISTFILE@),
                Home::NotPresent => made is Err && made->Err_0@ == Failure::HomeNotPresent,
                Home::NotUnicode => made is Err && made->Err_0@ == Failure::HomeNotUnicode,
            },
    {
        match home {
            Home::Found(dir) => Ok(History { histfile: dir.join(HISTFILE) }),
            Home::NotPresent => Err(Error::HomeNotPresent),
            Home::NotUnicode => Err(Error::HomeNotUnicode),
        }
    }

    /// The line that records `text` at the time `stamp`.
    pub fn entry(stamp: &str, text: &str) -> (line: String)
        ensures
            line@ == entry_text(stamp@, text@),
    {
        stamp.to_owned().concat(" ").concat(text).concat("\n")
    }

    /// The line to append to the history file to record `text` now: the
    /// time, then `text`.
    pub fn write(&self, text: &str) -> (line: String)
        ensures
            exists|stamp: Seq<char>|
                ": "@.is_suffix_of(stamp) && line@ == #[trigger] entry_text(stamp, text@),
    {
        let stamp = timestamp();
        History::entry(stamp.as_str(), text)
    }

    /// The last `last` lines of the history file, whose text is
    /// `contents`, the newest first.
    pub fn read_last(contents: &str, last: usize) -> (newest: Vec<String>)
        ensures
            texts(newest@) == newest_first(lines(contents@), last as nat),
    {
        let all = split_lines(&chars_of(contents));
        let mut newest: Vec<String> = Vec::new();
        let ghost backwards = texts(all@).reverse();
        let mut taken: usize = 0;
        while taken < last && taken < all.len()
            invariant
                taken <= all.len(),
                taken <= last,
                backwards == texts(all@).reverse(),
                texts(newest@) == backwards.take(taken as int),
            decreases all.len() - taken,
        {
            let line = all[all.len() - 1 - taken].clone();
            proof {
                lemma_texts_push(newest@, line);
                assert(backwards.take(taken + 1) =~= backwards.take(taken as int).push(line@));
            }
            newest.push(line);
            taken += 1;
        }
        assert(backwards.take(backwards.len() as int) =~= backwards);
        newest
    }
}

} // verus!
