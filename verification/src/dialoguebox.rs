//! Dialogue scripts and the dialogue queue.
//!
//! A script is a byte text. A record is a header line followed by a
//! nonempty text line: the header holds, somewhere in the line, a colon,
//! a space and a double quote, then the speaker's name (at least one
//! byte, up to the last quote-comma-space on the line that still leaves
//! at least one more byte before the line break). The speaker and the
//! full next line make one record; lines that fit no record are
//! skipped, so a malformed script yields no records rather than a
//! failure, and the game then simply stays out of the dialogue state.
use vstd::prelude::*;

use std::collections::VecDeque;

use crate::components::{Dialogue_Single_item, Gamestate, Size3};

verus! {

/// The index of the first line break at or after `i`, or the text's
/// length if the rest is one unbroken line.
pub open spec fn line_end(s: Seq<u8>, i: int) -> int
    decreases s.len() - i,
    when 0 <= i
{
    if i >= s.len() {
        s.len() as int
    } else if s[i] == 10 {
        i
    } else {
        line_end(s, i + 1)
    }
}

/// A line end lies between its start and the text's end.
pub proof fn lemma_line_end_bounds(s: Seq<u8>, i: int)
    requires
        0 <= i <= s.len(),
    ensures
        i <= line_end(s, i) <= s.len(),
    decreases s.len() - i,
{
    if i < s.len() && s[i] != 10 {
        lemma_line_end_bounds(s, i + 1);
    }
}

/// The index of the first occurrence of the three bytes `p0 p1 p2` at
/// or after `i` that fits before `end`, or `end` if there is none.
pub open spec fn find_pat3(s: Seq<u8>, i: int, end: int, p0: u8, p1: u8, p2: u8) -> int
    decreases end - i,
    when 0 <= i
{
    if i + 3 > end {
        end
    } else if s[i] == p0 && s[i + 1] == p1 && s[i + 2] == p2 {
        i
    } else {
        find_pat3(s, i + 1, end, p0, p1, p2)
    }
}

/// A found pattern lies at least at `i` and fits before `end`.
pub proof fn lemma_find_pat3_bounds(s: Seq<u8>, i: int, end: int, p0: u8, p1: u8, p2: u8)
    requires
        0 <= i,
    ensures
        find_pat3(s, i, end, p0, p1, p2) == end || (i <= find_pat3(s, i, end, p0, p1, p2)
            && find_pat3(s, i, end, p0, p1, p2) + 3 <= end),
    decreases end - i,
{
    if !(i + 3 > end) && !(s[i] == p0 && s[i + 1] == p1 && s[i + 2] == p2) {
        lemma_find_pat3_bounds(s, i + 1, end, p0, p1, p2);
    }
}

/// The index of the last occurrence of the three bytes `p0 p1 p2` at
/// or after `i` that fits before `end`, or `i - 1` if there is none.
pub open spec fn rfind_pat3(s: Seq<u8>, i: int, end: int, p0: u8, p1: u8, p2: u8) -> int
    decreases end - i,
    when 0 <= i
{
    if i + 3 > end {
        i - 1
    } else if s[end - 3] == p0 && s[end - 2] == p1 && s[end - 1] == p2 {
        end - 3
    } else {
        rfind_pat3(s, i, end - 1, p0, p1, p2)
    }
}

/// A found pattern lies at least at `i` and fits before `end`.
pub proof fn lemma_rfind_pat3_bounds(s: Seq<u8>, i: int, end: int, p0: u8, p1: u8, p2: u8)
    requires
        0 <= i,
    ensures
        rfind_pat3(s, i, end, p0, p1, p2) == i - 1 || (i <= rfind_pat3(s, i, end, p0, p1, p2)
            && rfind_pat3(s, i, end, p0, p1, p2) + 3 <= end),
    decreases end - i,
{
    if !(i + 3 > end) && !(s[end - 3] == p0 && s[end - 2] == p1 && s[end - 1] == p2) {
        lemma_rfind_pat3_bounds(s, i, end - 1, p0, p1, p2);
    }
}

/// The speaker span of the header line `[ls, le)`: after the first
/// colon-space-quote, up to the last quote-comma-space on the line that
/// still leaves it nonempty and keeps at least one byte before the line
/// break.
pub open spec fn header_speaker(s: Seq<u8>, ls: int, le: int) -> Option<(int, int)> {
    let k = find_pat3(s, ls, le, 58, 32, 34);
    if k == le {
        None
    } else {
        let m = rfind_pat3(s, k + 4, le - 1, 34, 44, 32);
        if m < k + 4 {
            None
        } else {
            Some((k + 3, m))
        }
    }
}

/// The records of the script from position `i` on: each is the speaker
/// span of a header line paired with the full, nonempty line after it.
pub open spec fn parse_from(s: Seq<u8>, i: int) -> Seq<(Seq<u8>, Seq<u8>)>
    decreases s.len() - i,
    when 0 <= i
{
    if i >= s.len() {
        Seq::empty()
    } else {
        let le = line_end(s, i);
        proof {
            lemma_line_end_bounds(s, i);
        }
        if le >= s.len() {
            Seq::empty()
        } else {
            match header_speaker(s, i, le) {
                Some(sp) => {
                    let te = line_end(s, le + 1);
                    proof {
                        lemma_line_end_bounds(s, le + 1);
                    }
                    if te > le + 1 {
                        seq![(s.subrange(sp.0, sp.1), s.subrange(le + 1, te))] + (if te < s.len() {
                            parse_from(s, te + 1)
                        } else {
                            Seq::empty()
                        })
                    } else {
                        parse_from(s, le + 1)
                    }
                },
                None => parse_from(s, le + 1),
            }
        }
    }
}

/// All records of a script.
pub open spec fn parse_spec(s: Seq<u8>) -> Seq<(Seq<u8>, Seq<u8>)> {
    parse_from(s, 0)
}

/// Exec counterpart of `line_end`.
fn find_newline(s: &[u8], from: usize) -> (r: usize)
    requires
        from <= s@.len(),
    ensures
        r == line_end(s@, from as int),
        from <= r <= s@.len(),
{
    let n = s.len();
    let mut i = from;
    while i < n
        invariant
            from <= i <= n,
            n == s@.len(),
            line_end(s@, from as int) == line_end(s@, i as int),
            forall|k: int| from <= k < i ==> s@[k] != 10,
        decreases n - i,
    {
        if s[i] == 10 {
            proof {
                lemma_line_end_bounds(s@, from as int);
            }
            return i;
        }
        i = i + 1;
    }
    i
}

/// Exec counterpart of `find_pat3`.
fn find_pattern(s: &[u8], from: usize, end: usize, p0: u8, p1: u8, p2: u8) -> (r: usize)
    requires
        end <= s@.len(),
    ensures
        r == find_pat3(s@, from as int, end as int, p0, p1, p2),
        r == end || (from <= r && r + 3 <= end),
    decreases end - from,
{
    proof {
        lemma_find_pat3_bounds(s@, from as int, end as int, p0, p1, p2);
    }
    if from < end && end - from >= 3 {
        if s[from] == p0 && s[from + 1] == p1 && s[from + 2] == p2 {
            from
        } else {
            find_pattern(s, from + 1, end, p0, p1, p2)
        }
    } else {
        end
    }
}

/// Exec counterpart of `rfind_pat3`.
fn rfind_pattern(s: &[u8], from: usize, end: usize, p0: u8, p1: u8, p2: u8) -> (r: usize)
    requires
        1 <= from,
        end <= s@.len(),
    ensures
        r == rfind_pat3(s@, from as int, end as int, p0, p1, p2),
        r == from - 1 || (from <= r && r + 3 <= end),
    decreases end,
{
    proof {
        lemma_rfind_pat3_bounds(s@, from as int, end as int, p0, p1, p2);
    }
    if from < end && end - from >= 3 {
        if s[end - 3] == p0 && s[end - 2] == p1 && s[end - 1] == p2 {
            end - 3
        } else {
            rfind_pattern(s, from, end - 1, p0, p1, p2)
        }
    } else {
        from - 1
    }
}

/// Copy the byte span `[a, b)` of the script into a fresh vector.
fn copy_range(s: &[u8], a: usize, b: usize) -> (v: Vec<u8>)
    requires
        a <= b <= s@.len(),
    ensures
        v@ =~= s@.subrange(a as int, b as int),
{
    let mut v: Vec<u8> = Vec::new();
    let mut k = a;
    while k < b
        invariant
            a <= k <= b,
            b <= s@.len(),
            v@ =~= s@.subrange(a as int, k as int),
        decreases b - k,
    {
        v.push(s[k]);
        proof {
            assert(v@ =~= s@.subrange(a as int, k + 1));
        }
        k = k + 1;
    }
    v
}

/// Parse a dialogue script into its records, in order: one per header
/// line followed by a nonempty text line, each with the small backdrop.
/// A script with no well-formed record yields an empty queue.
#[verifier::loop_isolation(false)]
pub fn parse_dialogue(script: &[u8]) -> (records: Vec<Dialogue_Single_item>)
    ensures
        records@.map_values(|r: Dialogue_Single_item| (r.speaker_name@, r.dialogue_text@))
            =~= parse_spec(script@),
        forall|k: int|
            0 <= k < records@.len() ==> (#[trigger] records@[k]).background_size == Size3::Small,
{
    let n = script.len();
    let mut records: Vec<Dialogue_Single_item> = Vec::new();
    let ghost to_pair = |r: Dialogue_Single_item| (r.speaker_name@, r.dialogue_text@);
    let mut i: usize = 0;
    while i < n
        invariant
            i <= n,
            parse_spec(script@) =~= records@.map_values(to_pair) + parse_from(script@, i as int),
            forall|k: int|
                0 <= k < records@.len() ==> (#[trigger] records@[k]).background_size
                    == Size3::Small,
        decreases n - i,
    {
        let ghost i0 = i as int;
        let le = find_newline(script, i);
        if le >= n {
            proof {
                assert(parse_from(script@, i0) =~= Seq::<(Seq<u8>, Seq<u8>)>::empty());
            }
            i = n;
        } else {
            let k = find_pattern(script, i, le, 58, 32, 34);
            let header: Option<(usize, usize)> = if k == le {
                None
            } else {
                let m = rfind_pattern(script, k + 4, le - 1, 34, 44, 32);
                if m < k + 4 {
                    None
                } else {
                    Some((k + 3, m))
                }
            };
            match header {
                Some((a, b)) => {
                    proof {
                        assert(header_speaker(script@, i0, le as int) == Some((a as int, b as int)));
                    }
                    let te = find_newline(script, le + 1);
                    if te > le + 1 {
                        let item = Dialogue_Single_item {
                            speaker_name: copy_range(script, a, b),
                            dialogue_text: copy_range(script, le + 1, te),
                            background_size: Size3::Small,
                        };
                        let ghost pre = records@;
                        records.push(item);
                        proof {
                            assert(records@.map_values(to_pair) =~= pre.map_values(to_pair).push(
                                (script@.subrange(a as int, b as int), script@.subrange(
                                    le + 1,
                                    te as int,
                                )),
                            ));
                            assert(parse_from(script@, i0) =~= seq![
                                (script@.subrange(a as int, b as int), script@.subrange(
                                    le + 1,
                                    te as int,
                                )),
                            ] + (if te < n {
                                parse_from(script@, te + 1)
                            } else {
                                Seq::<(Seq<u8>, Seq<u8>)>::empty()
                            }));
                        }
                        if te < n {
                            i = te + 1;
                        } else {
                            i = n;
                        }
                    } else {
                        proof {
                            assert(parse_from(script@, i0) == parse_from(script@, le + 1));
                        }
                        i = le + 1;
                    }
                },
                None => {
                    proof {
                        assert(header_speaker(script@, i0, le as int) is None);
                        assert(parse_from(script@, i0) == parse_from(script@, le + 1));
                    }
                    i = le + 1;
                },
            }
        }
    }
    proof {
        assert(parse_from(script@, i as int) =~= Seq::<(Seq<u8>, Seq<u8>)>::empty());
        assert(records@.map_values(to_pair) + Seq::<(Seq<u8>, Seq<u8>)>::empty()
            =~= records@.map_values(to_pair));
    }
    records
}

/// Hand a freshly parsed script to the dialogue queue: the entries are
/// appended in order, and the game enters the dialogue state exactly
/// when the queue ends up nonempty — a script that yielded no records
/// leaves the game state alone.
#[verifier::loop_isolation(false)]
pub fn enter_dialogue(
    gamestate: &mut Gamestate,
    dialogue_list: &mut VecDeque<Dialogue_Single_item>,
    entries: Vec<Dialogue_Single_item>,
) -> (count: usize)
    ensures
        final(dialogue_list)@ =~= old(dialogue_list)@ + entries@,
        *final(gamestate) == (if old(dialogue_list)@.len() + entries@.len() > 0 {
            Gamestate::Dialogue
        } else {
            *old(gamestate)
        }),
        count == entries@.len(),
{
    let mut entries = entries;
    let count = entries.len();
    let ghost all = entries@;
    let mut moved: usize = 0;
    while entries.len() > 0
        invariant
            moved + entries@.len() == all.len(),
            entries@ =~= all.skip(moved as int),
            dialogue_list@ =~= old(dialogue_list)@ + all.take(moved as int),
        decreases entries@.len(),
    {
        let e = entries.remove(0);
        proof {
            assert(e == all[moved as int]);
        }
        dialogue_list.push_back(e);
        moved = moved + 1;
        proof {
            assert(entries@ =~= all.skip(moved as int));
            assert(all.take(moved as int) =~= all.take(moved - 1).push(e));
            assert(dialogue_list@ =~= old(dialogue_list)@ + all.take(moved as int));
        }
    }
    proof {
        assert(all.take(moved as int) =~= all);
    }
    if dialogue_list.len() > 0 {
        *gamestate = Gamestate::Dialogue;
    }
    count
}

/// The dialogue rendering hook. The queue itself is advanced by
/// `crate::keyboard::Keyboard` and filled through `enter_dialogue`; the
/// render layer reads the queue's front entry.
pub struct DialogueBox;

} // verus!
