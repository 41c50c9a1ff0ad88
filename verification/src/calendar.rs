//! The class schedule: blocks with portal-format timestamps, the
//! high-school time corrections, and the elective-class derivation.
//!
//! The portal serializes a date as `/Date(<millis><sign><hhmm>)/`, e.g.
//! `/Date(1700000000123+0800)/`: milliseconds since the Unix epoch followed
//! by a fixed UTC offset. Times are modeled as epoch milliseconds plus that
//! offset in seconds.
use vstd::prelude::*;

use crate::strutil::all_dec_digits;
use crate::strutil::dec_value;
use crate::strutil::digit_val;
use crate::strutil::is_dec_digit;
use crate::strutil::occurs_at;
use crate::strutil::seq_contains;
use crate::strutil::str_contains;
use crate::subject::contains_id;
use crate::subject::spec_contains_id;

verus! {

/// One scheduled class block.
pub struct Block {
    pub id: u64,
    pub class_name: String,
    /// Block start, in milliseconds since the Unix epoch.
    pub begin_epoch_ms: i64,
    /// Block end, in milliseconds since the Unix epoch.
    pub end_epoch_ms: i64,
    /// The fixed UTC offset the portal reported the times in, in seconds.
    pub utc_offset_seconds: i32,
}

/// A fetched schedule.
pub struct Calendar {
    pub blocks: Vec<Block>,
}

/// The millisecond digits of a portal date string.
pub open spec fn portal_date_digits(s: Seq<char>) -> Seq<char> {
    s.subrange(6, s.len() - 7)
}

/// The five offset characters (`+hhmm` or `-hhmm`) of a portal date string.
pub open spec fn portal_date_offset(s: Seq<char>) -> Seq<char> {
    s.subrange(s.len() - 7, s.len() - 2)
}

/// The string has the portal's date shape: the `/Date(` ... `)/` wrapper
/// around at least one millisecond digit and a signed four-digit offset.
pub open spec fn portal_date_shape_ok(s: Seq<char>) -> bool {
    &&& s.len() >= 14
    &&& s.subrange(0, 6) == "/Date("@
    &&& s.subrange(s.len() - 2, s.len() as int) == ")/"@
    &&& all_dec_digits(portal_date_digits(s))
    &&& (portal_date_offset(s)[0] == '+' || portal_date_offset(s)[0] == '-')
    &&& all_dec_digits(portal_date_offset(s).subrange(1, 5))
}

/// A parseable portal date: well-shaped, with a millisecond value the
/// machine integer holds.
pub open spec fn portal_date_wf(s: Seq<char>) -> bool {
    portal_date_shape_ok(s) && dec_value(portal_date_digits(s)) <= i64::MAX
}

/// The UTC offset a portal date string carries, in seconds.
pub open spec fn spec_portal_offset_seconds(s: Seq<char>) -> int {
    let off = portal_date_offset(s);
    let mag = dec_value(off.subrange(1, 3)) * 3600 + dec_value(off.subrange(3, 5)) * 60;
    if off[0] == '-' {
        -mag
    } else {
        mag
    }
}

/// The value of a digit sequence never shrinks as digits are appended.
proof fn lemma_dec_value_nonneg(s: Seq<char>)
    requires
        all_dec_digits(s),
    ensures
        0 <= dec_value(s),
    decreases s.len(),
{
    if s.len() > 0 {
        assert(all_dec_digits(s.drop_last()));
        lemma_dec_value_nonneg(s.drop_last());
    }
}

/// A prefix of a digit sequence is worth no more than the whole.
proof fn lemma_dec_value_prefix_le(s: Seq<char>, k: int)
    requires
        all_dec_digits(s),
        0 <= k <= s.len(),
    ensures
        dec_value(s.take(k)) <= dec_value(s),
    decreases s.len(),
{
    lemma_dec_value_nonneg(s);
    if k < s.len() {
        assert(all_dec_digits(s.drop_last()));
        assert(s.drop_last().take(k) =~= s.take(k));
        lemma_dec_value_prefix_le(s.drop_last(), k);
        lemma_dec_value_nonneg(s.drop_last());
    } else {
        assert(s.take(k) =~= s);
    }
}

/// Parses a portal date string into its epoch milliseconds and UTC offset
/// in seconds. `None` exactly when the string is not of the portal's shape
/// or its millisecond count exceeds the machine integer.
pub fn parse_portal_date(s: &str) -> (r: Option<(i64, i32)>)
    ensures
        match r {
            Some((ms, off)) => {
                &&& portal_date_wf(s@)
                &&& ms == dec_value(portal_date_digits(s@))
                &&& off == spec_portal_offset_seconds(s@)
            },
            None => !portal_date_wf(s@),
        },
{
    proof {
        reveal_strlit("/Date(");
        reveal_strlit(")/");
    }
    let n = s.unicode_len();
    if n < 14 {
        return None;
    }
    if !occurs_at(s, "/Date(", 0) {
        proof {
            assert(s@.subrange(0, 6) != "/Date("@);
        }
        return None;
    }
    if !occurs_at(s, ")/", n - 2) {
        proof {
            assert(s@.subrange(n - 2, n as int) != ")/"@);
        }
        return None;
    }
    proof {
        assert(s@.subrange(0, 6) =~= s@.subrange(0, "/Date("@.len() as int));
        assert(s@.subrange(n - 2, n as int) =~= s@.subrange(n - 2, n - 2 + ")/"@.len()));
    }
    let ghost digits = portal_date_digits(s@);
    // Millisecond digits: positions 6 .. n-7.
    let mut val: i64 = 0;
    let mut j: usize = 6;
    proof {
        assert(digits.take(0) =~= Seq::<char>::empty());
    }
    while j < n - 7
        invariant
            n == s@.len(),
            14 <= n <= usize::MAX,
            digits == portal_date_digits(s@),
            6 <= j <= n - 7,
            forall|k: int| 0 <= k < j - 6 ==> is_dec_digit(#[trigger] digits[k]),
            val == dec_value(digits.take(j - 6)),
            0 <= val,
        decreases n - j,
    {
        let c = s.get_char(j);
        proof {
            assert(digits[j - 6] == s@[j as int]);
            assert(digits.take(j - 6 + 1).drop_last() =~= digits.take(j - 6));
            assert(digits.take(j - 6 + 1).last() == digits[j - 6]);
        }
        if !(c >= '0' && c <= '9') {
            proof {
                assert(!is_dec_digit(digits[j - 6]));
            }
            return None;
        }
        let d: i64 = (c as u32 as i64) - 48;
        proof {
            assert(d == digit_val(s@[j as int]));
        }
        let scaled = match val.checked_mul(10) {
            Some(v) => v,
            None => {
                proof {
                    assert(dec_value(digits.take(j - 6 + 1)) == 10 * val + d);
                    if all_dec_digits(digits) {
                        lemma_value_overflow(digits, j - 6 + 1);
                    }
                }
                return None;
            },
        };
        let next = match scaled.checked_add(d) {
            Some(v) => v,
            None => {
                proof {
                    assert(dec_value(digits.take(j - 6 + 1)) == 10 * val + d);
                    if all_dec_digits(digits) {
                        lemma_value_overflow(digits, j - 6 + 1);
                    }
                }
                return None;
            },
        };
        val = next;
        j += 1;
    }
    proof {
        assert(digits.take(n - 13) =~= digits);
        assert(all_dec_digits(digits));
    }
    // Offset: sign at n-7, two hour digits, two minute digits.
    let sign_char = s.get_char(n - 7);
    if !(sign_char == '+' || sign_char == '-') {
        proof {
            assert(portal_date_offset(s@)[0] == s@[n - 7]);
        }
        return None;
    }
    let h1 = s.get_char(n - 6);
    let h2 = s.get_char(n - 5);
    let m1 = s.get_char(n - 4);
    let m2 = s.get_char(n - 3);
    proof {
        let off = portal_date_offset(s@);
        assert(off[0] == s@[n - 7] && off[1] == s@[n - 6] && off[2] == s@[n - 5] && off[3] == s@[n
            - 4] && off[4] == s@[n - 3]);
    }
    if !(h1 >= '0' && h1 <= '9' && h2 >= '0' && h2 <= '9' && m1 >= '0' && m1 <= '9' && m2 >= '0'
        && m2 <= '9') {
        proof {
            let offd = portal_date_offset(s@).subrange(1, 5);
            assert(offd[0] == s@[n - 6] && offd[1] == s@[n - 5] && offd[2] == s@[n - 4] && offd[3]
                == s@[n - 3]);
        }
        return None;
    }
    let hours: i32 = ((h1 as u32 as i32) - 48) * 10 + ((h2 as u32 as i32) - 48);
    let minutes: i32 = ((m1 as u32 as i32) - 48) * 10 + ((m2 as u32 as i32) - 48);
    let mag: i32 = hours * 3600 + minutes * 60;
    let offset: i32 = if sign_char == '-' {
        -mag
    } else {
        mag
    };
    proof {
        let off = portal_date_offset(s@);
        let offd = off.subrange(1, 5);
        assert(offd[0] == s@[n - 6] && offd[1] == s@[n - 5] && offd[2] == s@[n - 4] && offd[3]
            == s@[n - 3]);
        assert(all_dec_digits(offd));
        lemma_two_digit_value(off.subrange(1, 3), s@[n - 6], s@[n - 5]);
        lemma_two_digit_value(off.subrange(3, 5), s@[n - 4], s@[n - 3]);
        assert(portal_date_shape_ok(s@));
    }
    Some((val, offset))
}

/// A two-character digit sequence is worth ten times its first digit plus
/// its second.
proof fn lemma_two_digit_value(s: Seq<char>, a: char, b: char)
    requires
        s.len() == 2,
        s[0] == a,
        s[1] == b,
    ensures
        dec_value(s) == 10 * digit_val(a) + digit_val(b),
{
    assert(s.drop_last() =~= seq![a]);
    assert(seq![a].drop_last() =~= Seq::<char>::empty());
    assert(seq![a].last() == a);
    assert(dec_value(Seq::<char>::empty()) == 0);
    assert(dec_value(seq![a]) == digit_val(a));
}

/// Once a digit prefix exceeds the machine integer, the whole digit string
/// does.
proof fn lemma_value_overflow(digits: Seq<char>, k: int)
    requires
        all_dec_digits(digits),
        0 < k <= digits.len(),
        dec_value(digits.take(k)) > i64::MAX,
    ensures
        dec_value(digits) > i64::MAX,
{
    lemma_dec_value_prefix_le(digits, k);
}

/// Minute of the local day an epoch time falls on, under a fixed UTC
/// offset.
pub open spec fn local_minute_of_day(epoch_ms: int, offset_seconds: int) -> int {
    ((epoch_ms + offset_seconds * 1000) % 86_400_000) / 60_000
}

/// The high-school timetable correction: the portal publishes middle-school
/// block times, and three known morning blocks start earlier for high
/// school.
pub open spec fn high_school_shift_minutes(minute_of_day: int) -> int {
    if minute_of_day == 8 * 60 + 25 {
        -25int
    } else if minute_of_day == 9 * 60 + 15 {
        -35int
    } else if minute_of_day == 12 * 60 + 35 {
        -45int
    } else {
        0int
    }
}

/// Block times stay within a million billion milliseconds of the epoch
/// (tens of thousands of years) and a day of UTC offset.
pub open spec fn block_time_ok(b: Block) -> bool {
    &&& -1_000_000_000_000_000 <= b.begin_epoch_ms <= 1_000_000_000_000_000
    &&& -1_000_000_000_000_000 <= b.end_epoch_ms <= 1_000_000_000_000_000
    &&& -86_400 <= b.utc_offset_seconds <= 86_400
}

/// `nb` is `ob` with both times moved by the high-school correction that
/// `ob`'s local starting minute selects.
pub open spec fn shifted_block(nb: Block, ob: Block) -> bool {
    let shift = high_school_shift_minutes(
        local_minute_of_day(ob.begin_epoch_ms as int, ob.utc_offset_seconds as int),
    );
    &&& nb.id == ob.id
    &&& nb.class_name == ob.class_name
    &&& nb.begin_epoch_ms == ob.begin_epoch_ms + shift * 60_000
    &&& nb.end_epoch_ms == ob.end_epoch_ms + shift * 60_000
    &&& nb.utc_offset_seconds == ob.utc_offset_seconds
}

impl Calendar {
    /// Applies the high-school block-time corrections: a block starting at
    /// the published 08:25, 09:15 or 12:35 local time is moved earlier by
    /// 25, 35 or 45 minutes; every other block stands.
    pub fn fix_high_school_blocks(self) -> (r: Calendar)
        requires
            forall|i: int| 0 <= i < self.blocks@.len() ==> block_time_ok(#[trigger] self.blocks@[i]),
        ensures
            r.blocks@.len() == self.blocks@.len(),
            forall|i: int|
                0 <= i < self.blocks@.len() ==> shifted_block(
                    #[trigger] r.blocks@[i],
                    self.blocks@[i],
                ),
    {
        let ghost orig = self.blocks@;
        let mut input = self.blocks;
        let n_blocks: usize = input.len();
        let mut out: Vec<Block> = Vec::new();
        let mut i: usize = 0;
        while input.len() > 0
            invariant
                forall|k: int| 0 <= k < orig.len() ==> block_time_ok(#[trigger] orig[k]),
                orig.len() == n_blocks,
                i + input@.len() == orig.len(),
                input@ =~= orig.skip(i as int),
                out@.len() == i,
                forall|k: int| 0 <= k < i ==> shifted_block(#[trigger] out@[k], orig[k]),
            decreases input@.len(),
        {
            let b = input.remove(0);
            proof {
                assert(orig.skip(i as int)[0] == orig[i as int]);
                assert(b == orig[i as int]);
                assert(input@ =~= orig.skip(i + 1));
                assert(block_time_ok(orig[i as int]));
            }
            let local_ms: i64 = b.begin_epoch_ms + (b.utc_offset_seconds as i64) * 1000;
            let day_ms: i64 = local_ms.checked_rem_euclid(86_400_000).unwrap();
            proof {
                vstd::arithmetic::div_mod::lemma_mod_division_less_than_divisor(
                    local_ms as int,
                    86_400_000,
                );
                vstd::arithmetic::div_mod::lemma_div_pos_is_pos(day_ms as int, 60_000);
                vstd::arithmetic::div_mod::lemma_div_is_ordered(
                    day_ms as int,
                    86_400_000,
                    60_000,
                );
            }
            let minute: i64 = day_ms.checked_div_euclid(60_000).unwrap();
            let shift: i64 = if minute == 8 * 60 + 25 {
                -25
            } else if minute == 9 * 60 + 15 {
                -35
            } else if minute == 12 * 60 + 35 {
                -45
            } else {
                0
            };
            let nb = Block {
                id: b.id,
                class_name: b.class_name,
                begin_epoch_ms: b.begin_epoch_ms + shift * 60_000,
                end_epoch_ms: b.end_epoch_ms + shift * 60_000,
                utc_offset_seconds: b.utc_offset_seconds,
            };
            proof {
                assert(shifted_block(nb, orig[i as int]));
            }
            out.push(nb);
            i += 1;
        }
        proof {
            assert(out@.len() == orig.len());
        }
        Calendar { blocks: out }
    }
}

/// A block belongs to an elective class: its class name carries the
/// elective marker.
pub open spec fn spec_is_elective_block(b: Block) -> bool {
    seq_contains(b.class_name@, "Ele"@)
}

/// The class ids of the schedule's elective blocks, each id once: a class
/// is elective when one of its blocks carries the elective marker in its
/// name.
pub fn get_elective_class_ids(blocks: &Vec<Block>) -> (r: Vec<u64>)
    ensures
        forall|id: u64|
            spec_contains_id(r@, id) <==> exists|i: int|
                0 <= i < blocks@.len() && (#[trigger] blocks@[i]).id == id && spec_is_elective_block(
                    blocks@[i],
                ),
        forall|i: int, j: int| 0 <= i < j < r@.len() ==> r@[i] != r@[j],
{
    let mut out: Vec<u64> = Vec::new();
    let mut k: usize = 0;
    while k < blocks.len()
        invariant
            k <= blocks@.len(),
            forall|id: u64|
                spec_contains_id(out@, id) <==> exists|i: int|
                    0 <= i < k && (#[trigger] blocks@[i]).id == id && spec_is_elective_block(
                        blocks@[i],
                    ),
            forall|i: int, j: int| 0 <= i < j < out@.len() ==> out@[i] != out@[j],
        decreases blocks@.len() - k,
    {
        let b = &blocks[k];
        if str_contains(b.class_name.as_str(), "Ele") && !contains_id(&out, b.id) {
            let ghost before = out@;
            out.push(b.id);
            proof {
                assert forall|id: u64| spec_contains_id(out@, id) implies exists|i: int|
                    0 <= i < k + 1 && (#[trigger] blocks@[i]).id == id && spec_is_elective_block(
                        blocks@[i],
                    ) by {
                    let w = choose|w: int| 0 <= w < out@.len() && out@[w] == id;
                    if w < before.len() {
                        assert(spec_contains_id(before, id));
                    } else {
                        assert(out@[w] == blocks@[k as int].id);
                    }
                }
                assert forall|id: u64|
                    (exists|i: int|
                        0 <= i < k + 1 && (#[trigger] blocks@[i]).id == id
                            && spec_is_elective_block(blocks@[i])) implies spec_contains_id(
                    out@,
                    id,
                ) by {
                    let w = choose|w: int|
                        0 <= w < k + 1 && blocks@[w].id == id && spec_is_elective_block(blocks@[w]);
                    if w < k {
                        assert(spec_contains_id(before, id));
                        let u = choose|u: int| 0 <= u < before.len() && before[u] == id;
                        assert(out@[u] == id);
                    } else {
                        assert(out@[out@.len() - 1] == id);
                    }
                }
            }
        } else {
            proof {
                if spec_is_elective_block(blocks@[k as int]) {
                    assert(spec_contains_id(out@, blocks@[k as int].id));
                }
                assert forall|id: u64|
                    (exists|i: int|
                        0 <= i < k + 1 && (#[trigger] blocks@[i]).id == id
                            && spec_is_elective_block(blocks@[i])) implies spec_contains_id(
                    out@,
                    id,
                ) by {
                    let w = choose|w: int|
                        0 <= w < k + 1 && blocks@[w].id == id && spec_is_elective_block(blocks@[w]);
                    if w < k {
                        assert(spec_contains_id(out@, id));
                    }
                }
            }
        }
        k += 1;
    }
    out
}

} // verus!
