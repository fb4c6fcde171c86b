use coop_core::resource::{CapabilityHandle, ResourceInitializer, ResourceKind, StartupError};

#[test]
fn claim_each_resource_once() {
    let mut init = ResourceInitializer::new();
    let kinds = [
        ResourceKind::PowerPin,
        ResourceKind::SelectPin,
        ResourceKind::SerialBus,
        ResourceKind::DmaChannel,
        ResourceKind::DiagEndpoint,
    ];
    for k in kinds {
        let h = init.claim(k).expect("first claim of a resource must succeed");
        assert_eq!(h.resource(), k);
    }
}

#[test]
fn double_claim_is_fatal() {
    let mut init = ResourceInitializer::new();
    let first = init.claim(ResourceKind::SerialBus);
    assert!(first.is_ok());
    let second = init.claim(ResourceKind::SerialBus);
    assert_eq!(second, Err(StartupError::AlreadyClaimed));
    // The failure does not free anything: a third try still fails.
    let third = init.claim(ResourceKind::SerialBus);
    assert_eq!(third, Err(StartupError::AlreadyClaimed));
}

#[test]
fn issued_handles_are_pairwise_distinct() {
    let mut init = ResourceInitializer::new();
    let mut handles: Vec<CapabilityHandle> = Vec::new();
    handles.push(init.claim(ResourceKind::PowerPin).unwrap());
    handles.push(init.claim(ResourceKind::SelectPin).unwrap());
    handles.push(init.claim(ResourceKind::SerialBus).unwrap());
    handles.push(init.claim(ResourceKind::DmaChannel).unwrap());
    handles.push(init.claim(ResourceKind::DiagEndpoint).unwrap());
    for i in 0..handles.len() {
        for j in 0..handles.len() {
            if i != j {
                assert_ne!(handles[i].resource(), handles[j].resource());
            }
        }
    }
}

#[test]
fn claim_after_other_claims_still_succeeds_once() {
    let mut init = ResourceInitializer::new();
    assert!(init.claim(ResourceKind::PowerPin).is_ok());
    assert!(init.claim(ResourceKind::DiagEndpoint).is_ok());
    assert!(init.claim(ResourceKind::PowerPin).is_err());
    assert!(init.claim(ResourceKind::SerialBus).is_ok());
}
