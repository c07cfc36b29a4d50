//! Input hints for an interactive host: the built-in call forms, and the
//! rule that picks the hint a partially typed line should show.
use vstd::prelude::*;

verus! {

/// Whether `p` is a prefix of `s`.
pub open spec fn is_prefix(p: Seq<char>, s: Seq<char>) -> bool {
    p.len() <= s.len() && p == s.subrange(0, p.len() as int)
}

fn str_starts_with(s: &str, p: &str) -> (r: bool)
    ensures
        r == is_prefix(p@, s@),
{
    let np = p.unicode_len();
    let ns = s.unicode_len();
    if np > ns {
        proof {
            assert(!is_prefix(p@, s@));
        }
        return false;
    }
    let mut i: usize = 0;
    while i < np
        invariant
            i <= np,
            np == p@.len(),
            ns == s@.len(),
            np <= ns,
            forall|q: int| 0 <= q < i ==> p@[q] == s@[q],
        decreases np - i,
    {
        if s.get_char(i) != p.get_char(i) {
            proof {
                assert(p@[i as int] != s@.subrange(0, np as int)[i as int]);
            }
            return false;
        }
        i = i + 1;
    }
    proof {
        assert(p@ =~= s@.subrange(0, np as int));
    }
    true
}

/// One hint: the full text to display, and how many of its characters a
/// completion should insert.
pub struct CommandHint {
    pub display: String,
    pub complete_up_to: usize,
}

impl CommandHint {
    /// A hint for `text` whose completion inserts the prefix `complete_up_to`.
    pub fn new(text: &str, complete_up_to: &str) -> (h: CommandHint)
        requires
            is_prefix(complete_up_to@, text@),
        ensures
            h.display@ == text@,
            h.complete_up_to == complete_up_to@.len(),
    {
        let n = complete_up_to.unicode_len();
        CommandHint { display: text.to_owned(), complete_up_to: n }
    }

    /// The hint with its first `strip_chars` characters removed; the
    /// completion length saturates at zero.
    pub fn suffix(&self, strip_chars: usize) -> (h: CommandHint)
        requires
            strip_chars <= self.display@.len(),
        ensures
            h.display@ == self.display@.subrange(strip_chars as int, self.display@.len() as int),
            h.complete_up_to == if strip_chars <= self.complete_up_to {
                self.complete_up_to - strip_chars
            } else {
                0
            },
    {
        let n = self.display.as_str().unicode_len();
        let display = self.display.as_str().substring_char(strip_chars, n).to_owned();
        let complete_up_to = if strip_chars <= self.complete_up_to {
            self.complete_up_to - strip_chars
        } else {
            0
        };
        CommandHint { display, complete_up_to }
    }
}

/// The hint table: one entry per built-in call form.
pub fn hints() -> (hs: Vec<CommandHint>)
    ensures
        hs@.len() == 4,
        hs@[0].display@ == "pi()"@ && hs@[0].complete_up_to == 4,
        hs@[1].display@ == "sin()"@ && hs@[1].complete_up_to == 4,
        hs@[2].display@ == "factors()"@ && hs@[2].complete_up_to == 8,
        hs@[3].display@ == "plot()"@ && hs@[3].complete_up_to == 5,
{
    proof {
        reveal_strlit("pi()");
        reveal_strlit("sin()");
        reveal_strlit("sin(");
        reveal_strlit("factors()");
        reveal_strlit("factors(");
        reveal_strlit("plot()");
        reveal_strlit("plot(");
        assert(is_prefix("pi()"@, "pi()"@)) by {
            assert("pi()"@ =~= "pi()"@.subrange(0, 4));
        }
        assert(is_prefix("sin("@, "sin()"@)) by {
            assert("sin("@ =~= "sin()"@.subrange(0, 4));
        }
        assert(is_prefix("factors("@, "factors()"@)) by {
            assert("factors("@ =~= "factors()"@.subrange(0, 8));
        }
        assert(is_prefix("plot("@, "plot()"@)) by {
            assert("plot("@ =~= "plot()"@.subrange(0, 5));
        }
    }
    let mut hs: Vec<CommandHint> = Vec::new();
    hs.push(CommandHint::new("pi()", "pi()"));
    hs.push(CommandHint::new("sin()", "sin("));
    hs.push(CommandHint::new("factors()", "factors("));
    hs.push(CommandHint::new("plot()", "plot("));
    hs
}

/// The hint the table offers from position `k` on: the first entry whose
/// display starts with the typed line.
pub open spec fn spec_hint_from(
    hs: Seq<CommandHint>,
    k: int,
    line: Seq<char>,
) -> Option<CommandHint>
    decreases hs.len() - k,
{
    if k < 0 || k >= hs.len() {
        None
    } else if is_prefix(line, hs[k].display@) {
        Some(hs[k])
    } else {
        spec_hint_from(hs, k + 1, line)
    }
}

/// The hint to show for a typed line: nothing for an empty line or while the
/// cursor is not at its end; otherwise the first table entry the line is a
/// prefix of, with the already-typed characters stripped.
pub fn matching_hint(hs: &Vec<CommandHint>, line: &str, pos: usize) -> (r: Option<CommandHint>)
    requires
        pos <= line@.len(),
    ensures
        match r {
            Some(h) => ({
                &&& line@.len() > 0
                &&& pos == line@.len()
                &&& match spec_hint_from(hs@, 0, line@) {
                    Some(full) => h.display@ == full.display@.subrange(
                        pos as int,
                        full.display@.len() as int,
                    ) && h.complete_up_to == if pos <= full.complete_up_to {
                        full.complete_up_to - pos
                    } else {
                        0
                    },
                    None => false,
                }
            }),
            None => line@.len() == 0 || pos < line@.len() || spec_hint_from(hs@, 0, line@)
                is None,
        },
{
    let n = line.unicode_len();
    if n == 0 || pos < n {
        return None;
    }
    let mut k: usize = 0;
    while k < hs.len()
        invariant
            k <= hs@.len(),
            line@.len() > 0,
            pos == line@.len(),
            spec_hint_from(hs@, 0, line@) == spec_hint_from(hs@, k as int, line@),
        decreases hs@.len() - k,
    {
        if str_starts_with(hs[k].display.as_str(), line) {
            proof {
                assert(spec_hint_from(hs@, k as int, line@) == Some(hs@[k as int]));
            }
            return Some(hs[k].suffix(pos));
        }
        k = k + 1;
    }
    None
}

} // verus!
