//! Semesters: the portal's term records, with dates modeled as epoch
//! milliseconds and a fixed UTC offset.
use vstd::prelude::*;

verus! {

/// One school semester. `is_now` marks the term the portal considers
/// current.
#[derive(Clone, Copy, Debug)]
pub struct Semester {
    pub id: u64,
    pub year: u64,
    pub semester: u64,
    pub is_now: bool,
    /// Term start, in milliseconds since the Unix epoch.
    pub start_epoch_ms: i64,
    /// Term end, in milliseconds since the Unix epoch.
    pub end_epoch_ms: i64,
    /// The fixed UTC offset the portal reported the dates in, in seconds.
    pub utc_offset_seconds: i32,
}

/// Index of the first semester marked current.
pub open spec fn first_now(s: Seq<Semester>) -> Option<int>
    decreases s.len(),
{
    if s.len() == 0 {
        None
    } else if s[0].is_now {
        Some(0int)
    } else {
        match first_now(s.skip(1)) {
            Some(i) => Some(i + 1),
            None => None,
        }
    }
}

/// What `first_now` finds is the first current semester.
pub proof fn lemma_first_now_is_first(s: Seq<Semester>)
    ensures
        match first_now(s) {
            Some(i) => 0 <= i < s.len() && s[i].is_now && forall|j: int|
                0 <= j < i ==> !s[j].is_now,
            None => forall|j: int| 0 <= j < s.len() ==> !(#[trigger] s[j]).is_now,
        },
    decreases s.len(),
{
    if s.len() > 0 && !s[0].is_now {
        lemma_first_now_is_first(s.skip(1));
        assert forall|j: int| 1 <= j < s.len() implies #[trigger] s[j] == s.skip(1)[j - 1] by {}
    }
}

/// The first semester the portal marks as current, if any.
pub fn get_current_semester(semesters: &Vec<Semester>) -> (r: Option<&Semester>)
    ensures
        match r {
            Some(sem) => first_now(semesters@) matches Some(i) && *sem == semesters@[i],
            None => first_now(semesters@) is None,
        },
{
    proof {
        lemma_first_now_is_first(semesters@);
    }
    let mut i: usize = 0;
    while i < semesters.len()
        invariant
            i <= semesters@.len(),
            forall|j: int| 0 <= j < i ==> !(#[trigger] semesters@[j]).is_now,
            match first_now(semesters@) {
                Some(k) => 0 <= k < semesters@.len() && semesters@[k].is_now && forall|j: int|
                    0 <= j < k ==> !semesters@[j].is_now,
                None => forall|j: int|
                    0 <= j < semesters@.len() ==> !(#[trigger] semesters@[j]).is_now,
            },
        decreases semesters@.len() - i,
    {
        if semesters[i].is_now {
            return Some(&semesters[i]);
        }
        i += 1;
    }
    None
}

} // verus!
