use vstd::prelude::*;
use vstd::string::*;
use crate::error::GarError;
use crate::github::{Workflow, WorkflowRun};
use crate::text::{char_vec, decimal, decimal_digits};

verus! {

/// How a chosen group of alike job names resolves.
pub enum GroupChoice {
    /// The group has one member: that job, with no further prompt.
    Resolved { index: usize },
    /// The group has several members: the operator picks among these.
    Ask { members: Vec<usize> },
}

/// The display colour of an execution, from its status.
#[derive(PartialEq, Eq, Structural, Clone, Copy, Debug)]
pub enum StatusBucket {
    Success,
    Pending,
    Queued,
    Neutral,
}

pub open spec fn bucket_of(status: Seq<char>) -> StatusBucket {
    if status == "completed"@ {
        StatusBucket::Success
    } else if status == "in_progress"@ {
        StatusBucket::Pending
    } else if status == "queued"@ {
        StatusBucket::Queued
    } else {
        StatusBucket::Neutral
    }
}

/// `name - createdAt - id`
pub open spec fn run_label_of(name: Seq<char>, created_at: Seq<char>, id: u64) -> Seq<char> {
    name + " - "@ + created_at + " - "@ + decimal_digits(id as nat)
}

/// Resolves the operator's choice of a group: a group of one member is that
/// job; a larger group needs a second prompt among its members.
pub fn resolve_group(groups: &Vec<Vec<usize>>, chosen: usize) -> (r: Result<GroupChoice, GarError>)
    ensures
        (chosen >= groups@.len() || groups@[chosen as int]@.len() == 0) <==> r is Err,
        r matches Err(e) ==> e is SelectionFailed,
        chosen < groups@.len() && groups@[chosen as int]@.len() == 1 ==> r == Ok::<GroupChoice, GarError>(
            GroupChoice::Resolved { index: groups@[chosen as int]@[0] },
        ),
        chosen < groups@.len() && groups@[chosen as int]@.len() > 1 ==> (r matches Ok(
            GroupChoice::Ask { members },
        ) && members@ == groups@[chosen as int]@),
{
    if chosen >= groups.len() {
        return Err(GarError::SelectionFailed);
    }
    let group = &groups[chosen];
    if group.len() == 0 {
        Err(GarError::SelectionFailed)
    } else if group.len() == 1 {
        Ok(GroupChoice::Resolved { index: group[0] })
    } else {
        let mut members: Vec<usize> = Vec::new();
        let mut k: usize = 0;
        while k < group.len()
            invariant
                k <= group@.len(),
                members@ == group@.take(k as int),
            decreases group@.len() - k,
        {
            members.push(group[k]);
            k = k + 1;
            assert(members@ =~= group@.take(k as int));
        }
        assert(group@.take(k as int) =~= group@);
        Ok(GroupChoice::Ask { members })
    }
}

/// The position of the first job whose name is exactly `name`.
pub fn find_workflow_by_name(workflows: &Vec<Workflow>, name: &String) -> (r: Result<usize, GarError>)
    ensures
        r is Err <==> forall|i: int| 0 <= i < workflows@.len() ==> workflows@[i].name@ != name@,
        r matches Err(e) ==> e is SelectionFailed,
        r matches Ok(i) ==> i < workflows@.len() && workflows@[i as int].name@ == name@
            && forall|j: int| 0 <= j < i ==> workflows@[j].name@ != name@,
{
    let mut i: usize = 0;
    while i < workflows.len()
        invariant
            i <= workflows@.len(),
            forall|j: int| 0 <= j < i ==> workflows@[j].name@ != name@,
        decreases workflows@.len() - i,
    {
        if workflows[i].name == *name {
            return Ok(i);
        }
        i = i + 1;
    }
    Err(GarError::SelectionFailed)
}

/// The menu entry of each group: the name of its first member.
pub fn group_labels(names: &Vec<String>, groups: &Vec<Vec<usize>>) -> (r: Vec<String>)
    requires
        forall|g: int| 0 <= g < groups@.len() ==> (#[trigger] groups@[g])@.len() > 0
            && groups@[g]@[0] < names@.len(),
    ensures
        r@.len() == groups@.len(),
        forall|g: int| 0 <= g < groups@.len() ==> (#[trigger] r@[g])@ == names@[groups@[g]@[0] as int]@,
{
    let mut r: Vec<String> = Vec::new();
    let mut g: usize = 0;
    while g < groups.len()
        invariant
            g <= groups@.len(),
            forall|h: int| 0 <= h < groups@.len() ==> (#[trigger] groups@[h])@.len() > 0
                && groups@[h]@[0] < names@.len(),
            r@.len() == g,
            forall|h: int| 0 <= h < g ==> (#[trigger] r@[h])@ == names@[groups@[h]@[0] as int]@,
        decreases groups@.len() - g,
    {
        assert(groups@[g as int]@.len() > 0);
        let first = groups[g][0];
        r.push(names[first].clone());
        g = g + 1;
    }
    r
}

/// The colour bucket of a status: `completed`, `in_progress` and `queued`
/// have their own; every other status is neutral.
pub fn status_bucket(status: &String) -> (r: StatusBucket)
    ensures
        r == bucket_of(status@),
{
    if *status == String::from_str("completed") {
        StatusBucket::Success
    } else if *status == String::from_str("in_progress") {
        StatusBucket::Pending
    } else if *status == String::from_str("queued") {
        StatusBucket::Queued
    } else {
        StatusBucket::Neutral
    }
}

/// The menu entry of an execution, `name - createdAt - id`, and its colour.
pub fn run_label(run: &WorkflowRun) -> (r: (String, StatusBucket))
    ensures
        r.0@ == run_label_of(run.name@, run.created_at@, run.id),
        r.1 == bucket_of(run.status@),
{
    let mut label = run.name.clone();
    label.append(" - ");
    label.append(run.created_at.as_str());
    label.append(" - ");
    let id = decimal(run.id);
    label.append(id.as_str());
    (label, status_bucket(&run.status))
}

/// The menu entries of a list of executions, in listing order.
pub fn run_labels(runs: &Vec<WorkflowRun>) -> (r: Vec<(String, StatusBucket)>)
    ensures
        r@.len() == runs@.len(),
        forall|i: int| 0 <= i < runs@.len() ==> (#[trigger] r@[i]).0@ == run_label_of(
            runs@[i].name@,
            runs@[i].created_at@,
            runs@[i].id,
        ) && r@[i].1 == bucket_of(runs@[i].status@),
{
    let mut r: Vec<(String, StatusBucket)> = Vec::new();
    let mut i: usize = 0;
    while i < runs.len()
        invariant
            i <= runs@.len(),
            r@.len() == i,
            forall|k: int| 0 <= k < i ==> (#[trigger] r@[k]).0@ == run_label_of(
                runs@[k].name@,
                runs@[k].created_at@,
                runs@[k].id,
            ) && r@[k].1 == bucket_of(runs@[k].status@),
        decreases runs@.len() - i,
    {
        r.push(run_label(&runs[i]));
        i = i + 1;
    }
    r
}

/// The item at the operator's chosen position.
pub fn chosen_index(len: usize, chosen: usize) -> (r: Result<usize, GarError>)
    ensures
        r is Ok <==> chosen < len,
        r matches Ok(i) ==> i == chosen,
        r matches Err(e) ==> e is SelectionFailed,
{
    if chosen < len {
        Ok(chosen)
    } else {
        Err(GarError::SelectionFailed)
    }
}

} // verus!

verus! {

/// What `str::to_lowercase` gives for `s`.
pub uninterp spec fn lower_of(s: Seq<char>) -> Seq<char>;

/// Whether `pat` occurs in `s` as a contiguous run.
pub open spec fn has_infix(s: Seq<char>, pat: Seq<char>) -> bool {
    exists|i: int| 0 <= i <= s.len() - pat.len() && #[trigger] s.subrange(i, i + pat.len()) == pat
}

/// How a job name is set off in a menu.
#[derive(PartialEq, Eq, Structural, Clone, Copy, Debug)]
pub struct NameStyle {
    /// The name mentions production: it is flagged ` !!! name ` in red.
    pub production: bool,
    /// The name mentions tests: it is padded and shown in blue.
    pub test: bool,
}

/// Relies on `str::to_lowercase`: the lowercase mapping of each character,
/// which depends on the characters alone.
#[verifier::external_body]
fn lowercase(s: &str) -> (r: String)
    ensures
        r@ == lower_of(s@),
{
    s.to_lowercase()
}

/// Whether `pat` occurs in `s`.
pub fn contains_infix(s: &Vec<char>, pat: &Vec<char>) -> (r: bool)
    ensures
        r == has_infix(s@, pat@),
{
    if pat.len() > s.len() {
        return false;
    }
    let n = s.len();
    let last = n - pat.len();
    let mut i: usize = 0;
    while i <= last
        invariant
            n == s@.len(),
            last == s@.len() - pat@.len(),
            i <= last + 1,
            forall|k: int| 0 <= k < i ==> #[trigger] s@.subrange(k, k + pat@.len()) != pat@,
        decreases last + 1 - i,
    {
        let mut j: usize = 0;
        let mut same = true;
        while j < pat.len() && same
            invariant
                n == s@.len(),
                i <= last,
                last == s@.len() - pat@.len(),
                j <= pat@.len(),
                same ==> forall|k: int| 0 <= k < j ==> s@[i + k] == pat@[k],
                !same ==> s@.subrange(i as int, i + pat@.len()) != pat@,
            decreases pat@.len() - j + if same { 1int } else { 0int },
        {
            if s[i + j] != pat[j] {
                same = false;
                assert(s@.subrange(i as int, i + pat@.len())[j as int] != pat@[j as int]);
            } else {
                j = j + 1;
            }
        }
        if same {
            assert(s@.subrange(i as int, i + pat@.len()) =~= pat@);
            return true;
        }
        if i == last {
            return false;
        }
        i = i + 1;
    }
    false
}

/// The style of a job name, given the name already lowercased.
pub fn style_of_lowered(lower: &str) -> (r: NameStyle)
    ensures
        r.production == has_infix(lower@, "prod"@),
        r.test == has_infix(lower@, "test"@),
{
    let chars = char_vec(lower);
    let prod = char_vec("prod");
    let test = char_vec("test");
    NameStyle { production: contains_infix(&chars, &prod), test: contains_infix(&chars, &test) }
}

/// The style of a job name: it mentions `prod` or `test`, in any case.
pub fn name_style(name: &str) -> (r: NameStyle)
    ensures
        r.production == has_infix(lower_of(name@), "prod"@),
        r.test == has_infix(lower_of(name@), "test"@),
{
    let lower = lowercase(name);
    style_of_lowered(lower.as_str())
}

/// The menu text of a job name: ` !!! name ` when it mentions production,
/// then padded with a space on each side when it mentions tests.
pub fn styled_label(name: &str, style: NameStyle) -> (r: String)
    ensures
        r@ == {
            let flagged = if style.production { " !!! "@ + name@ + " "@ } else { name@ };
            if style.test { " "@ + flagged + " "@ } else { flagged }
        },
{
    let mut flagged = String::new();
    if style.production {
        flagged.append(" !!! ");
        flagged.append(name);
        flagged.append(" ");
    } else {
        flagged.append(name);
    }
    if style.test {
        let mut padded = String::from_str(" ");
        padded.append(flagged.as_str());
        padded.append(" ");
        padded
    } else {
        flagged
    }
}

} // verus!
