//! Tests of the configuration, the reschedule decision rule, the batch
//! container, and the small sample value types.

use batch_system::batch::Batch;
use batch_system::batch::FsmTypes;
use batch_system::batch::ReschedulePolicy;
use batch_system::batch::decide_normal;
use batch_system::config::Config;
use batch_system::owner::OwnerTest;
use batch_system::owner::OwnerTestOfRef;
use batch_system::fsm::Fsm;
use batch_system::fsm::Priority;
use batch_system::runner::HandleMetrics;
use batch_system::runner::Message;
use batch_system::runner::Runner;
use batch_system::shared_obj::CopyableObj;
use batch_system::shared_obj::ShardPointerObj2;
use batch_system::shared_obj::SharedNumObj;
use batch_system::shared_obj::SharedPointerObj;
use batch_system::shared_obj::SharedStringObj;
use batch_system::shared_obj::UncopiableObj;
use batch_system::thread_group::GroupProperties;

#[test]
fn config_defaults_match_the_documented_table() {
    let cfg = Config::default();
    assert_eq!(cfg.max_batch_size, None);
    assert_eq!(cfg.pool_size, 2);
    assert_eq!(cfg.reschedule_duration, 5000);
    assert_eq!(cfg.low_priority_pool_size, 1);
    assert_eq!(cfg.max_batch_size(), 256);

    let cfg2 = Config { max_batch_size: Some(32), ..Config::default() };
    assert_eq!(cfg2.max_batch_size(), 32);
}

#[test]
fn reschedule_decision_follows_the_rules() {
    // stopped wins over everything
    assert!(matches!(
        decide_normal(true, true, true, true, Some(3)),
        Some(ReschedulePolicy::Remove)
    ));
    // a tier mismatch reschedules
    assert!(matches!(
        decide_normal(false, true, false, false, None),
        Some(ReschedulePolicy::Schedule)
    ));
    // every second hot FSM is rescheduled
    assert!(matches!(
        decide_normal(false, false, true, true, Some(3)),
        Some(ReschedulePolicy::Schedule)
    ));
    // an odd hot occurrence is released like a cold one
    assert!(matches!(
        decide_normal(false, false, true, false, Some(3)),
        Some(ReschedulePolicy::Release(3))
    ));
    // without a length hint nothing is recorded
    assert!(decide_normal(false, false, false, false, None).is_none());
}

#[test]
fn batch_push_counts_normals_and_stops_on_the_sentinel() {
    let mut batch: Batch<Runner, Runner> = Batch::with_capacity(4);
    assert!(batch.is_empty());

    let (_tx, runner) = Runner::new(4);
    assert!(batch.push(FsmTypes::Normal(runner, 7)));
    assert_eq!(batch.len(), 1);
    assert!(!batch.is_empty());
    assert!(!batch.has_control());

    let (_tx2, control) = Runner::new(4);
    assert!(batch.push(FsmTypes::Control(control)));
    assert!(batch.has_control());

    assert!(!batch.push(FsmTypes::Empty));
    assert_eq!(batch.len(), 1);

    batch.clear();
    assert!(batch.is_empty());
    assert!(!batch.has_control());
}

#[test]
fn runner_priority_can_be_retuned() {
    let (_tx, mut runner) = Runner::new(4);
    assert_eq!(runner.get_priority(), Priority::Normal);
    runner.set_priority(Priority::Low);
    assert_eq!(runner.get_priority(), Priority::Low);
    assert!(!runner.is_stopped());
    let _ = Message::Loop(1);
}

#[test]
fn handle_metrics_start_at_zero() {
    let m = HandleMetrics::default();
    assert_eq!(m.begin, 0);
    assert_eq!(m.control, 0);
    assert_eq!(m.normal, 0);
}

#[test]
fn group_properties_carry_the_shutdown_flag() {
    let props = GroupProperties::new();
    assert!(!props.is_marked_shutdown());
    let shared = props.share();
    props.mark_shutdown();
    // the flag is shared between handles, not copied
    assert!(shared.is_marked_shutdown());
}

#[test]
fn sample_objects_hold_their_fields() {
    let o = OwnerTest::new(1, 2);
    assert_eq!(o.num_1, 1);
    assert_eq!(o.num_2, 2);
    let copied = o;
    assert_eq!(copied.num_1, o.num_1);

    let r = OwnerTestOfRef::new("build".to_string(), 1);
    assert_eq!(r.str_1, "build");
    assert_eq!(r.num_1, 1);

    let s = SharedStringObj::new("name".to_string());
    assert_eq!(s.name, "name");
    assert_eq!(batch_system::shared_obj::new("other".to_string()).name, "other");

    let n = SharedNumObj::new(7);
    assert_eq!(SharedPointerObj::new(n).pointer.age, 7);
    assert_eq!(ShardPointerObj2::new(s.clone()).pointer.name, "name");

    let c = CopyableObj::new(-1, 2);
    let c2 = c;
    assert_eq!(c2.num1, -1);
    assert_eq!(c2.num2, 2);

    let u = UncopiableObj::new("abc".to_string());
    assert_eq!(u.str1, "abc");
    // cloning yields a fresh placeholder, not a copy
    assert_eq!(u.clone().str1, "");
}
