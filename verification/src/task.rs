//! Learning-task records as the portal reports them, with scores as
//! fixed-point hundredths.
use vstd::prelude::*;

verus! {

/// One learning task of a semester, with the evaluation projects it feeds
/// into.
pub struct Task {
    pub id: u64,
    pub learning_task_name: String,
    pub subject_name: String,
    pub class_id: u64,
    pub subject_id: u64,
    /// Full score in hundredths.
    pub total_score: i64,
    pub is_in_subject_score: bool,
    /// Achieved score in hundredths; `None` for an ungraded task.
    pub score: Option<i64>,
    /// Class average in hundredths.
    pub class_avg_score: i64,
    /// Class maximum in hundredths.
    pub class_max_score: i64,
    pub eva_projects: Vec<EvaulationProject>,
}

/// An evaluation-project reference carried by a task record, as the portal
/// spells and shapes it.
pub struct EvaulationProject {
    pub name: String,
    pub e_name: String,
    pub id: u32,
    pub parent_pro_id: u32,
    /// Raw proportion in hundredths of a percent point.
    pub proportion: i64,
}

} // verus!
