//! Instances as the agent reports them.

use vstd::prelude::*;

use crate::text::same_text;

verus! {

/// Status of one instance.
#[derive(Debug)]
pub struct InstanceStatus {
    /// Identifier of the instance.
    pub id: String,
    /// App or job that it belongs to.
    pub app_name: String,
    /// Namespace of the app.
    pub namespace: String,
    /// State of the instance, such as `running` or `stopped`.
    pub state: String,
    /// Exit code, once it has one and the runtime tells.
    pub exit_code: Option<i32>,
    /// Process of the instance, if it has one.
    pub pid: Option<u32>,
}

impl Clone for InstanceStatus {
    fn clone(&self) -> (r: Self)
        ensures
            r == *self,
    {
        InstanceStatus {
            id: self.id.clone(),
            app_name: self.app_name.clone(),
            namespace: self.namespace.clone(),
            state: self.state.clone(),
            exit_code: self.exit_code,
            pid: self.pid,
        }
    }
}

/// Whether an instance belongs to an app.
pub open spec fn belongs(status: InstanceStatus, app: Seq<char>, namespace: Seq<char>) -> bool {
    status.app_name@ == app && status.namespace@ == namespace
}

/// The instances of an app, in order.
pub open spec fn instances_of(
    statuses: Seq<InstanceStatus>,
    app: Seq<char>,
    namespace: Seq<char>,
) -> Seq<InstanceStatus> {
    statuses.filter(|s: InstanceStatus| belongs(s, app, namespace))
}

/// Whether an instance belongs to an app.
pub fn belongs_to(status: &InstanceStatus, app: &str, namespace: &str) -> (r: bool)
    ensures
        r == belongs(*status, app@, namespace@),
{
    same_text(status.app_name.as_str(), app) && same_text(status.namespace.as_str(), namespace)
}

/// Pick the instances of an app.
pub fn pick_instances(
    statuses: &Vec<InstanceStatus>,
    app: &str,
    namespace: &str,
) -> (r: Vec<InstanceStatus>)
    ensures
        r@ == instances_of(statuses@, app@, namespace@),
{
    let ghost own = |s: InstanceStatus| belongs(s, app@, namespace@);
    let mut list: Vec<InstanceStatus> = Vec::new();
    let mut i: usize = 0;
    proof {
        reveal(Seq::filter);
        assert(statuses@.take(0).filter(own) =~= Seq::<InstanceStatus>::empty());
    }
    while i < statuses.len()
        invariant
            i <= statuses.len(),
            own == (|s: InstanceStatus| belongs(s, app@, namespace@)),
            list@ == statuses@.take(i as int).filter(own),
        decreases statuses.len() - i,
    {
        proof {
            reveal(Seq::filter);
            assert(statuses@.take(i as int + 1).drop_last() =~= statuses@.take(i as int));
            assert(statuses@.take(i as int + 1).last() == statuses@[i as int]);
        }
        if belongs_to(&statuses[i], app, namespace) {
            list.push(statuses[i].clone());
        }
        i = i + 1;
    }
    proof {
        assert(statuses@.take(statuses@.len() as int) =~= statuses@);
    }
    list
}

} // verus!
