//! A deployment plan, as the server returns it, and what it asks of the client.
use vstd::prelude::*;
use crate::config::strs_view;
use crate::deployable::Deployable;

verus! {

/// What a deployment does to a service.
#[derive(Debug, Clone, Copy, PartialEq, Eq, Structural)]
pub enum DeployAction {
    Create,
    Update,
    Delete,
}

/// A task the client performs before a deployment.
#[derive(Debug)]
pub enum DeployTask {
    /// Build the image of the application of that short name.
    Build(String),
    /// A task that builds nothing.
    Other,
}

/// One step of a plan.
#[derive(Debug)]
pub struct Deploy {
    pub deployable: Deployable,
    pub action: DeployAction,
    pub client_tasks: Vec<DeployTask>,
}

/// The names of the applications that `tasks` build, in order.
pub open spec fn task_build_names(tasks: Seq<DeployTask>) -> Seq<Seq<char>>
    decreases tasks.len(),
{
    if tasks.len() == 0 {
        Seq::empty()
    } else {
        task_build_names(tasks.drop_last()) + match tasks.last() {
            DeployTask::Build(n) => seq![n@],
            DeployTask::Other => Seq::empty(),
        }
    }
}

/// The names of the applications built across all steps, in order.
pub open spec fn plan_build_names(ds: Seq<Deploy>) -> Seq<Seq<char>>
    decreases ds.len(),
{
    if ds.len() == 0 {
        Seq::empty()
    } else {
        plan_build_names(ds.drop_last()) + task_build_names(ds.last().client_tasks@)
    }
}

/// The short names of the steps with action `a`, in order.
pub open spec fn names_with_action(ds: Seq<Deploy>, a: DeployAction) -> Seq<Seq<char>>
    decreases ds.len(),
{
    if ds.len() == 0 {
        Seq::empty()
    } else if ds.last().action == a {
        names_with_action(ds.drop_last(), a).push(ds.last().deployable.short_name@)
    } else {
        names_with_action(ds.drop_last(), a)
    }
}

/// What a plan asks for: the applications to build and the services to
/// create, update and delete, each by short name, in plan order.
#[derive(Debug)]
pub struct PlanSummary {
    pub build: Vec<String>,
    pub create: Vec<String>,
    pub update: Vec<String>,
    pub delete: Vec<String>,
}

impl PlanSummary {
    /// Whether the plan asks for nothing at all.
    pub fn is_empty(&self) -> (r: bool)
        ensures
            r == (self.build.len() == 0 && self.create.len() == 0 && self.update.len() == 0
                && self.delete.len() == 0),
    {
        self.build.len() == 0 && self.create.len() == 0 && self.update.len() == 0
            && self.delete.len() == 0
    }
}

/// The services to select: those listed in `only`, followed by `single_filter`.
pub fn merge_filters(single_filter: Option<String>, only: Option<Vec<String>>) -> (r: Vec<String>)
    ensures
        strs_view(r@) == match (single_filter, only) {
            (Some(s), Some(o)) => strs_view(o@).push(s@),
            (None, Some(o)) => strs_view(o@),
            (Some(s), None) => seq![s@],
            (None, None) => Seq::<Seq<char>>::empty(),
        },
{
    let ghost sf = single_filter;
    let ghost on = only;
    match (single_filter, only) {
        (Some(s), Some(o)) => {
            let mut f = o;
            let ghost before = f@;
            f.push(s);
            assert(strs_view(f@) =~= strs_view(before).push(sf.unwrap()@));
            f
        },
        (None, Some(o)) => o,
        (Some(s), None) => {
            let mut f: Vec<String> = Vec::new();
            f.push(s);
            assert(strs_view(f@) =~= seq![sf.unwrap()@]);
            f
        },
        (None, None) => {
            let f: Vec<String> = Vec::new();
            assert(strs_view(f@) =~= Seq::<Seq<char>>::empty());
            f
        },
    }
}

fn push_view(v: &mut Vec<String>, s: String)
    ensures
        strs_view(final(v)@) == strs_view(old(v)@).push(s@),
{
    v.push(s);
    assert(strs_view(v@) =~= strs_view(old(v)@).push(s@));
}

/// What the plan `deploys` asks for.
pub fn summarize_plan(deploys: &Vec<Deploy>) -> (r: PlanSummary)
    ensures
        strs_view(r.build@) == plan_build_names(deploys@),
        strs_view(r.create@) == names_with_action(deploys@, DeployAction::Create),
        strs_view(r.update@) == names_with_action(deploys@, DeployAction::Update),
        strs_view(r.delete@) == names_with_action(deploys@, DeployAction::Delete),
{
    let mut build: Vec<String> = Vec::new();
    let mut create: Vec<String> = Vec::new();
    let mut update: Vec<String> = Vec::new();
    let mut delete: Vec<String> = Vec::new();
    assert(strs_view(build@) =~= Seq::<Seq<char>>::empty());
    assert(strs_view(create@) =~= Seq::<Seq<char>>::empty());
    assert(strs_view(update@) =~= Seq::<Seq<char>>::empty());
    assert(strs_view(delete@) =~= Seq::<Seq<char>>::empty());
    assert(deploys@.take(0) =~= Seq::<Deploy>::empty());
    let mut i: usize = 0;
    while i < deploys.len()
        invariant
            i <= deploys.len(),
            strs_view(build@) == plan_build_names(deploys@.take(i as int)),
            strs_view(create@) == names_with_action(deploys@.take(i as int), DeployAction::Create),
            strs_view(update@) == names_with_action(deploys@.take(i as int), DeployAction::Update),
            strs_view(delete@) == names_with_action(deploys@.take(i as int), DeployAction::Delete),
        decreases deploys.len() - i,
    {
        let d = &deploys[i];
        let ghost pre = deploys@.take(i as int);
        let ghost next = deploys@.take(i + 1);
        assert(next.drop_last() =~= pre);
        assert(next.last() == *d);
        let ghost base = strs_view(build@);
        let tasks = &d.client_tasks;
        let mut j: usize = 0;
        assert(tasks@.take(0) =~= Seq::<DeployTask>::empty());
        while j < tasks.len()
            invariant
                j <= tasks.len(),
                strs_view(build@) == base + task_build_names(tasks@.take(j as int)),
            decreases tasks.len() - j,
        {
            assert(tasks@.take(j + 1).drop_last() =~= tasks@.take(j as int));
            match &tasks[j] {
                DeployTask::Build(n) => {
                    push_view(&mut build, n.clone());
                    assert(strs_view(build@) =~= base + task_build_names(tasks@.take(j + 1)));
                },
                DeployTask::Other => {
                    assert(strs_view(build@) =~= base + task_build_names(tasks@.take(j + 1)));
                },
            }
            j = j + 1;
        }
        assert(tasks@.take(tasks.len() as int) =~= tasks@);
        match d.action {
            DeployAction::Create => push_view(&mut create, d.deployable.short_name.clone()),
            DeployAction::Update => push_view(&mut update, d.deployable.short_name.clone()),
            DeployAction::Delete => push_view(&mut delete, d.deployable.short_name.clone()),
        }
        i = i + 1;
    }
    assert(deploys@.take(deploys.len() as int) =~= deploys@);
    PlanSummary { build, create, update, delete }
}

} // verus!
