//! Skills: named instruction templates for the system prompt, and the
//! summaries listed to the user.
use vstd::prelude::*;

use crate::sort::{is_stable_order, stable_order};
use crate::text::owned;

verus! {

/// One skill.
#[derive(Debug)]
pub struct Skill {
    pub id: String,
    pub name: String,
    pub description: String,
    /// The instructions the skill adds to the system prompt.
    pub system_prompt: String,
    pub created_at: String,
}

/// A skill as listed: without its instructions.
#[derive(Debug)]
pub struct SkillSummary {
    pub id: String,
    pub name: String,
    pub description: String,
    pub created_at: String,
}

/// A skill as (id, name, description, instructions, creation time).
pub open spec fn skill_view(s: Skill) -> (Seq<char>, Seq<char>, Seq<char>, Seq<char>, Seq<char>) {
    (s.id@, s.name@, s.description@, s.system_prompt@, s.created_at@)
}

/// A summary as (id, name, description, creation time).
pub open spec fn skill_summary_view(s: SkillSummary) -> (Seq<char>, Seq<char>, Seq<char>, Seq<char>) {
    (s.id@, s.name@, s.description@, s.created_at@)
}

impl Skill {
    /// A new skill with the given id, texts and creation time.
    pub fn new(id: String, name: &str, description: &str, system_prompt: &str, now: String) -> (r: Skill)
        ensures
            skill_view(r) == (id@, name@, description@, system_prompt@, now@),
    {
        Skill {
            id,
            name: owned(name),
            description: owned(description),
            system_prompt: owned(system_prompt),
            created_at: now,
        }
    }

    /// The summary of the skill.
    pub fn summary(&self) -> (r: SkillSummary)
        ensures
            skill_summary_view(r) == (self.id@, self.name@, self.description@, self.created_at@),
    {
        SkillSummary {
            id: self.id.clone(),
            name: self.name.clone(),
            description: self.description.clone(),
            created_at: self.created_at.clone(),
        }
    }
}

impl SkillSummary {
    /// A copy of the summary.
    pub fn duplicate(&self) -> (r: SkillSummary)
        ensures
            skill_summary_view(r) == skill_summary_view(*self),
    {
        SkillSummary {
            id: self.id.clone(),
            name: self.name.clone(),
            description: self.description.clone(),
            created_at: self.created_at.clone(),
        }
    }
}

/// `p` orders the skills newest first (by creation time, compared as text),
/// skills with equal times in the order they came.
pub open spec fn created_newest_first(v: Seq<SkillSummary>, p: Seq<usize>) -> bool {
    is_stable_order(v.map_values(|s: SkillSummary| s.created_at@), true, p)
}

/// The skills newest first.
pub fn sort_skills(v: Vec<SkillSummary>) -> (r: Vec<SkillSummary>)
    ensures
        exists|p: Seq<usize>|
            created_newest_first(v@, p) && r@.len() == v@.len() && forall|i: int|
                0 <= i < r@.len() ==> skill_summary_view(#[trigger] r@[i]) == skill_summary_view(
                    v@[p[i] as int],
                ),
{
    let mut keys: Vec<String> = Vec::new();
    let mut i: usize = 0;
    while i < v.len()
        invariant
            i <= v@.len(),
            keys@.len() == i,
            forall|t: int| 0 <= t < i ==> (#[trigger] keys@[t])@ == v@[t].created_at@,
        decreases v@.len() - i,
    {
        keys.push(v[i].created_at.clone());
        i = i + 1;
    }
    assert(keys@.map_values(|k: String| k@) =~= v@.map_values(|s: SkillSummary| s.created_at@));
    let p = stable_order(&keys, true);
    let mut r: Vec<SkillSummary> = Vec::new();
    let mut k: usize = 0;
    while k < p.len()
        invariant
            k <= p@.len(),
            p@.len() == v@.len(),
            forall|t: int| 0 <= t < p@.len() ==> (#[trigger] p@[t]) < v@.len(),
            r@.len() == k,
            forall|t: int|
                0 <= t < k ==> skill_summary_view(#[trigger] r@[t]) == skill_summary_view(
                    v@[p@[t] as int],
                ),
        decreases p@.len() - k,
    {
        let idx = p[k];
        r.push(v[idx].duplicate());
        k = k + 1;
    }
    assert(created_newest_first(v@, p@));
    r
}

} // verus!
