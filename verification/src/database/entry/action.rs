//! The operation that a connection records.

use vstd::prelude::*;

verus! {

/// The operation that made a connection.
#[derive(Clone, Copy, Debug, PartialEq, Eq, Structural)]
pub enum Action {
    /// A transform was applied to datasets.
    Apply,
    /// Transforms were chained into one.
    Chain,
    /// Datasets were linked into one.
    Link,
}

impl Action {
    /// The name under which the action is written down.
    pub open spec fn spec_name(self) -> Seq<char> {
        match self {
            Action::Apply => "apply"@,
            Action::Chain => "chain"@,
            Action::Link => "link"@,
        }
    }

    /// The name under which the action is written down.
    pub fn name(self) -> (r: &'static str)
        ensures
            r@ == self.spec_name(),
    {
        match self {
            Action::Apply => "apply",
            Action::Chain => "chain",
            Action::Link => "link",
        }
    }

    /// The action written down as `name`.
    pub fn from_name(name: &str) -> (r: Option<Action>)
        ensures
            r == (if name@ == "apply"@ {
                Some(Action::Apply)
            } else if name@ == "chain"@ {
                Some(Action::Chain)
            } else if name@ == "link"@ {
                Some(Action::Link)
            } else {
                None
            }),
    {
        if *name == *"apply" {
            Some(Action::Apply)
        } else if *name == *"chain" {
            Some(Action::Chain)
        } else if *name == *"link" {
            Some(Action::Link)
        } else {
            None
        }
    }

    /// The action shown to a user as `label`.
    pub fn from_label(label: &str) -> (r: Option<Action>)
        ensures
            r == (if label@ == "Apply"@ {
                Some(Action::Apply)
            } else if label@ == "Chain"@ {
                Some(Action::Chain)
            } else if label@ == "Link"@ {
                Some(Action::Link)
            } else {
                None
            }),
    {
        if *label == *"Apply" {
            Some(Action::Apply)
        } else if *label == *"Chain" {
            Some(Action::Chain)
        } else if *label == *"Link" {
            Some(Action::Link)
        } else {
            None
        }
    }
}

/// Reading back the name of an action gives the action.
pub proof fn lemma_name_round_trip(a: Action)
    ensures
        a.spec_name() == "apply"@ <==> a == Action::Apply,
        a.spec_name() == "chain"@ <==> a == Action::Chain,
        a.spec_name() == "link"@ <==> a == Action::Link,
{
    reveal_strlit("apply");
    reveal_strlit("chain");
    reveal_strlit("link");
    assert("apply"@[0] == 'a');
    assert("chain"@[0] == 'c');
    assert("link"@[0] == 'l');
}

} // verus!
