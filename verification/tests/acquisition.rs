use pilatus_aravis::acquisition::{
    keeps_luma_stream, BroadcastItem,
    after_run, keep_shared_acquisition, missed_items, on_image_broadcast, ConnectionTracker, RunOutcome,
    SupervisorStep,
};
use pilatus_aravis::status::CameraStatus;
use pilatus_aravis::wrapper::StreamingAction;

#[test]
fn missed_items_saturate_then_wrap() {
    assert_eq!(missed_items(0), u16::MAX);
    assert_eq!(missed_items(5), u16::MAX);
    assert_eq!(missed_items(65535), u16::MAX);
    assert_eq!(missed_items(65536), 0);
    assert_eq!(missed_items(70000), 4464);
}

#[test]
fn acquisition_is_shared_with_more_than_one_receiver() {
    assert!(!keep_shared_acquisition(0));
    assert!(!keep_shared_acquisition(1));
    assert!(keep_shared_acquisition(2));
}

#[test]
fn broadcast_continues_while_someone_listens() {
    assert_eq!(on_image_broadcast(Some(2)), (StreamingAction::Continue, Some(CameraStatus::Running)));
    assert_eq!(on_image_broadcast(Some(0)), (StreamingAction::Stop, None));
    assert_eq!(on_image_broadcast(None), (StreamingAction::Stop, None));
}

#[test]
fn supervisor_steps() {
    assert_eq!(after_run(RunOutcome::Stopped, false), SupervisorStep::Finish);
    assert_eq!(after_run(RunOutcome::Continued, true), SupervisorStep::Restart);
    assert_eq!(after_run(RunOutcome::Failed, false), SupervisorStep::RetryAfterError);
    assert_eq!(after_run(RunOutcome::Failed, true), SupervisorStep::Finish);
}

#[test]
fn only_first_connection_reports_running() {
    let mut t = ConnectionTracker::new();
    assert_eq!(t.on_connected(), Some(CameraStatus::Running));
    assert_eq!(t.on_connected(), None);
    assert_eq!(t.on_connected(), None);
}

#[test]
fn luma_subscription_ends_at_other_formats_and_lags() {
    assert!(keeps_luma_stream(BroadcastItem::Luma8Image));
    assert!(!keeps_luma_stream(BroadcastItem::OtherImage));
    assert!(!keeps_luma_stream(BroadcastItem::Lagged));
}
