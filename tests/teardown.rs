use audio_sync::coordinator::Coordinator;
use audio_sync::dictionary::Endpoint;
use audio_sync::teardown::{teardown_plan, TeardownStep};

/// A stand-in for the native layer that records the calls made on it.
#[derive(Default)]
struct Recorder {
    calls: Vec<String>,
}

impl Recorder {
    fn perform(&mut self, step: &TeardownStep) {
        match step {
            TeardownStep::UnregisterEndpoint { token } => self.calls.push(format!("unregister endpoint {}", token)),
            TeardownStep::UnregisterStructural { token } => self.calls.push(format!("unregister structural {}", token)),
            TeardownStep::ReleaseConnection => self.calls.push("release connection".to_string()),
        }
    }
}

fn coordinator_with(tokens: &[(&str, u64)]) -> Coordinator {
    let mut c = Coordinator::new();
    let devs = tokens
        .iter()
        .map(|(id, t)| Endpoint::new(id.to_string(), id.to_string(), 0, false, *t))
        .collect();
    let _ = c.rebuild(Ok(devs), Ok(String::new()), None);
    c
}

#[test]
fn endpoints_are_unregistered_before_connection_is_released() {
    let c = coordinator_with(&[("B", 7), ("A", 3), ("C", 9)]);
    let mut rec = Recorder::default();
    for step in teardown_plan(&c, Some(1)).iter() {
        rec.perform(step);
    }
    assert_eq!(
        rec.calls,
        vec![
            "unregister endpoint 3",
            "unregister endpoint 7",
            "unregister endpoint 9",
            "unregister structural 1",
            "release connection",
        ]
    );
}

#[test]
fn teardown_of_empty_dictionary_without_structural_registration() {
    let c = Coordinator::new();
    assert_eq!(teardown_plan(&c, None), vec![TeardownStep::ReleaseConnection]);
}
