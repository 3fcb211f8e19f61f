//! The order in which native resources are released at shutdown: every
//! endpoint's change callback is unregistered, then the structural callback,
//! and only then is the connection to the audio subsystem released.
use vstd::prelude::*;
use crate::coordinator::Coordinator;
use crate::dictionary::EndpointView;

verus! {

/// One step of the shutdown sequence.
#[derive(Clone, Copy, Debug, PartialEq, Eq, Structural)]
pub enum TeardownStep {
    /// Unregister the change callback of the endpoint registered under `token`.
    UnregisterEndpoint { token: u64 },
    /// Unregister the structural callback registered under `token`.
    UnregisterStructural { token: u64 },
    /// Release the connection to the audio subsystem.
    ReleaseConnection,
}

/// The shutdown sequence for endpoint tokens `tokens` and the structural
/// token `structural`, if one was registered.
pub open spec fn teardown_steps(tokens: Seq<u64>, structural: Option<u64>) -> Seq<TeardownStep> {
    tokens.map_values(|t: u64| TeardownStep::UnregisterEndpoint { token: t }) + match structural {
        Some(s) => seq![TeardownStep::UnregisterStructural { token: s }],
        None => Seq::empty(),
    } + seq![TeardownStep::ReleaseConnection]
}

/// The shutdown sequence for the endpoints of `coordinator`, in identifier
/// order, and the structural registration `structural`.
pub fn teardown_plan(coordinator: &Coordinator, structural: Option<u64>) -> (r: Vec<TeardownStep>)
    ensures
        r@ == teardown_steps(coordinator@.map_values(|e: EndpointView| e.token), structural),
{
    let tokens = coordinator.endpoint_tokens();
    let mut steps: Vec<TeardownStep> = Vec::new();
    let mut i: usize = 0;
    while i < tokens.len()
        invariant
            0 <= i <= tokens@.len(),
            steps@ == tokens@.subrange(0, i as int).map_values(
                |t: u64| TeardownStep::UnregisterEndpoint { token: t },
            ),
        decreases tokens@.len() - i,
    {
        steps.push(TeardownStep::UnregisterEndpoint { token: tokens[i] });
        i = i + 1;
        assert(steps@ =~= tokens@.subrange(0, i as int).map_values(
            |t: u64| TeardownStep::UnregisterEndpoint { token: t },
        ));
    }
    assert(tokens@.subrange(0, i as int) =~= tokens@);
    if let Some(s) = structural {
        steps.push(TeardownStep::UnregisterStructural { token: s });
    }
    steps.push(TeardownStep::ReleaseConnection);
    assert(steps@ =~= teardown_steps(tokens@, structural));
    steps
}

/// The connection is released by the last step and by no other, and every
/// endpoint token, and the structural token, is unregistered before it.
pub proof fn lemma_release_comes_last(tokens: Seq<u64>, structural: Option<u64>)
    ensures
        ({
            let steps = teardown_steps(tokens, structural);
            &&& steps.last() == TeardownStep::ReleaseConnection
            &&& forall|i: int| 0 <= i < steps.len() - 1 ==> #[trigger] steps[i] != TeardownStep::ReleaseConnection
            &&& forall|j: int| 0 <= j < tokens.len() ==> #[trigger] steps[j] == (TeardownStep::UnregisterEndpoint {
                token: tokens[j],
            }) && j < steps.len() - 1
            &&& structural matches Some(s) ==> steps[steps.len() - 2] == (TeardownStep::UnregisterStructural {
                token: s,
            })
        }),
{
    let steps = teardown_steps(tokens, structural);
    let n = tokens.len();
    assert forall|i: int| 0 <= i < steps.len() - 1 implies #[trigger] steps[i] != TeardownStep::ReleaseConnection by {
        if i < n {
            assert(steps[i] == TeardownStep::UnregisterEndpoint { token: tokens[i] });
        }
    }
}

} // verus!
