use origami::cache::{CacheKey, Claim, ComputeCache};
use origami::maven::specifier::ArtifactPath;

#[test]
fn first_caller_computes_and_the_rest_wait() {
    let mut cache: ComputeCache<String, String> = ComputeCache::new();
    let mut computes = 0;
    let mut waits = 0;
    for _ in 0..10 {
        match cache.begin("k".to_string()) {
            Claim::Compute => computes += 1,
            Claim::Wait => waits += 1,
            Claim::Ready => panic!("nothing was published"),
        }
    }
    assert_eq!(computes, 1);
    assert_eq!(waits, 9);
    assert!(cache.result(&"k".to_string()).is_none());
    assert!(cache.publish(&"k".to_string(), "v".to_string()));
    for _ in 0..10 {
        assert_eq!(cache.begin("k".to_string()), Claim::Ready);
        assert_eq!(cache.result(&"k".to_string()), Some(&"v".to_string()));
    }
}

#[test]
fn a_published_result_stays() {
    let mut cache: ComputeCache<u64, u32> = ComputeCache::new();
    assert_eq!(cache.begin(1), Claim::Compute);
    assert!(cache.publish(&1, 10));
    assert!(!cache.publish(&1, 11));
    assert_eq!(cache.result(&1), Some(&10));
}

#[test]
fn nothing_is_published_for_a_key_nobody_asked_for() {
    let mut cache: ComputeCache<u64, u32> = ComputeCache::new();
    assert!(!cache.publish(&1, 10));
    assert_eq!(cache.result(&1), None);
    assert_eq!(cache.begin(1), Claim::Compute);
}

#[test]
fn keys_do_not_disturb_each_other() {
    let mut cache: ComputeCache<u64, u32> = ComputeCache::new();
    assert_eq!(cache.begin(1), Claim::Compute);
    assert_eq!(cache.begin(2), Claim::Compute);
    assert!(cache.publish(&2, 20));
    assert_eq!(cache.begin(1), Claim::Wait);
    assert_eq!(cache.begin(2), Claim::Ready);
    assert_eq!(cache.result(&1), None);
    assert_eq!(cache.result(&2), Some(&20));
}

#[test]
fn compute_runs_the_operation_once() {
    let mut cache: ComputeCache<String, String> = ComputeCache::new();
    let mut calls = 0;
    for _ in 0..10 {
        let v = cache
            .compute("k".to_string(), |_k| {
                calls += 1;
                "v".to_string()
            })
            .cloned();
        assert_eq!(v, Some("v".to_string()));
    }
    assert_eq!(calls, 1);
}

#[test]
fn compute_hands_nothing_out_while_another_computes() {
    let mut cache: ComputeCache<u64, u32> = ComputeCache::new();
    assert_eq!(cache.begin(4), Claim::Compute);
    let mut calls = 0;
    assert_eq!(
        cache.compute(4, |_k| {
            calls += 1;
            1
        }),
        None
    );
    assert_eq!(calls, 0);
}

#[test]
fn keys_are_compared_by_what_they_name() {
    assert!(7u64.same(&7));
    assert!(!7u64.same(&8));
    assert!("a".to_string().same(&"a".to_string()));
    assert!(!"a".to_string().same(&"b".to_string()));
    let p = ArtifactPath::new("g", "a");
    assert!(p.same(&ArtifactPath::new("g", "a")));
    assert!(!p.same(&ArtifactPath::new("g", "b")));
    assert!(!p.same(&ArtifactPath::new("h", "a")));
}
