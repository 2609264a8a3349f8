//! Join-set identity.

use vstd::prelude::*;

use crate::promise_id::{pid_display, PidView, PromiseId};

verus! {

use vstd::string::StringExecFns;

/// Identifies a join set within an execution.
///
/// Wraps a [`PromiseId`]: a join set allocates a child position in the call
/// tree, consistent with the identity model. The distinct type keeps join-set
/// handles from being confused with promise handles.
#[derive(Debug, PartialEq, Eq, Hash)]
pub struct JoinSetId(pub PromiseId);

impl View for JoinSetId {
    type V = PidView;

    open spec fn view(&self) -> PidView {
        self.0@
    }
}

impl DeepView for JoinSetId {
    type V = PidView;

    open spec fn deep_view(&self) -> PidView {
        self.view()
    }
}

impl Clone for JoinSetId {
    fn clone(&self) -> (r: Self)
        ensures
            r@ == self@,
    {
        JoinSetId(self.0.clone())
    }
}

/// Display form of a join-set id: the wrapped promise id inside `js(..)`.
pub open spec fn joinset_display(v: PidView) -> Seq<char> {
    "js("@ + pid_display(v) + ")"@
}

impl JoinSetId {
    /// Stable display form: the wrapped promise id inside `js(..)`.
    pub fn display_string(&self) -> (r: String)
        ensures
            r@ == joinset_display(self@),
    {
        let mut out = String::new();
        out.append("js(");
        let inner = self.0.display_string();
        out.append(inner.as_str());
        out.append(")");
        out
    }

    /// Whether two join-set ids denote the same set.
    pub fn same_id(&self, other: &JoinSetId) -> (r: bool)
        ensures
            r == (self@ == other@),
    {
        self.0.same_id(&other.0)
    }
}

} // verus!
