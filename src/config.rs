//! The daemon's settings, as plain values.
use crate::commands::is_blank;
use crate::engine::views;
use vstd::prelude::*;
use vstd::std_specs::iter::IteratorSpec;

verus! {

broadcast use vstd::string::group_string_axioms;

/// Everything the daemon is configured with.
#[derive(Debug, Clone)]
pub struct AppConfig {
    pub feeds: Feeds,
    pub database: Database,
    pub socket: String,
    pub webhook: Option<String>,
}

/// Where the ledger is stored.
#[derive(Debug, Clone)]
pub struct Database {
    pub path: String,
}

/// The statically configured feeds and the polling settings.
#[derive(Debug, Clone)]
pub struct Feeds {
    pub list: Vec<String>,
    pub file_path: Option<String>,
    pub queue: usize,
    pub refresh_interval: usize,
}

/// A line holds something besides blanks.
pub open spec fn has_text_spec(s: Seq<char>) -> bool {
    exists|i: int| 0 <= i < s.len() && !is_blank(s[i])
}

/// The lines of a feed-list file that name a feed.
pub open spec fn text_lines(lines: Seq<Seq<char>>) -> Seq<Seq<char>> {
    lines.filter(|l: Seq<char>| has_text_spec(l))
}

/// Whether `s` holds a character that is not blank.
pub fn has_text(s: &str) -> (r: bool)
    ensures
        r == has_text_spec(s@),
{
    let mut chars = s.chars();
    let ghost mut i: int = 0;
    loop
        invariant
            0 <= i <= s@.len(),
            chars.obeys_prophetic_iter_laws(),
            chars.remaining() == s@.subrange(i, s@.len() as int),
            forall|j: int| 0 <= j < i ==> is_blank(#[trigger] s@[j]),
        ensures
            forall|j: int| 0 <= j < s@.len() ==> is_blank(#[trigger] s@[j]),
        decreases s@.len() - i,
    {
        match chars.next() {
            None => {
                break;
            },
            Some(c) => {
                assert(c == s@[i]);
                if !crate::commands::is_blank_char(c) {
                    return true;
                }
                proof {
                    assert(s@.subrange(i + 1, s@.len() as int) =~= s@.subrange(
                        i,
                        s@.len() as int,
                    ).drop_first());
                    i = i + 1;
                }
            },
        }
    }
    false
}

impl Feeds {
    /// The configured feeds: the list, then each line of the feed-list file
    /// (`file_lines`, read by the caller from `file_path`) that is not blank.
    pub fn get(&self, file_lines: &Vec<String>) -> (r: Vec<String>)
        ensures
            views(r@) == views(self.list@) + text_lines(views(file_lines@)),
    {
        let mut out: Vec<String> = Vec::new();
        let mut i: usize = 0;
        while i < self.list.len()
            invariant
                i <= self.list@.len(),
                views(out@) == views(self.list@).take(i as int),
            decreases self.list@.len() - i,
        {
            let u: String = self.list[i].clone();
            let ghost before = out@;
            out.push(u);
            assert(views(out@) =~= views(before).push(u@));
            assert(views(out@) =~= views(self.list@).take(i + 1));
            i = i + 1;
        }
        assert(views(self.list@).take(i as int) =~= views(self.list@));
        let ghost base = views(out@);
        let ghost ls = views(file_lines@);
        let mut j: usize = 0;
        assert(ls.take(0) =~= Seq::<Seq<char>>::empty());
        proof {
            reveal(Seq::filter);
        }
        assert(base + text_lines(ls.take(0)) =~= base);
        while j < file_lines.len()
            invariant
                j <= file_lines@.len(),
                ls == views(file_lines@),
                views(out@) == base + text_lines(ls.take(j as int)),
            decreases file_lines@.len() - j,
        {
            assert(ls.take(j + 1).drop_last() =~= ls.take(j as int));
            proof {
                reveal(Seq::filter);
            }
            assert(ls[j as int] == file_lines@[j as int]@);
            if has_text(file_lines[j].as_str()) {
                let u: String = file_lines[j].clone();
                let ghost before = out@;
                out.push(u);
                assert(views(out@) =~= views(before).push(u@));
                assert(views(out@) =~= base + text_lines(ls.take(j + 1)));
            } else {
                assert(text_lines(ls.take(j + 1)) =~= text_lines(ls.take(j as int)));
            }
            j = j + 1;
        }
        assert(ls.take(j as int) =~= ls);
        out
    }
}

} // verus!
