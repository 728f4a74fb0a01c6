use pi_estimation_channels::channel::channel_send;
use pi_estimation_channels::channel::release_sender;
use pi_estimation_channels::channel::unbounded_channel;
use pi_estimation_channels::channel::PipelineError;
use pi_estimation_channels::generator::MessageGenerator;
use pi_estimation_channels::generator::PointGenerator;
use pi_estimation_channels::manager::PointManager;
use pi_estimation_channels::point::Point;
use pi_estimation_channels::receiver::Receiver;
use pi_estimation_channels::reporter::Reporter;
use pi_estimation_channels::tally::Report;

#[test]
fn round_robin_splits_seven_messages_four_and_three() {
    // Two consumers: the generator must alternate, so the first endpoint
    // gets samples 0, 2, 4, 6 and the second gets 1, 3, 5.
    let first: Receiver<Point> = Receiver::new();
    let second: Receiver<Point> = Receiver::new();
    let generator = MessageGenerator::new(7, vec![first.send_channel(), second.send_channel()]);
    assert_eq!(generator.send_messages(), Ok(7));
    assert_eq!(first.receive_stuff(100), Ok(4));
    assert_eq!(second.receive_stuff(100), Ok(3));
}

#[test]
fn send_points_delivers_the_whole_batch() {
    let sink: Receiver<Point> = Receiver::new();
    let generator = MessageGenerator::new(5, vec![sink.send_channel()]);
    let points = vec![Point::new(0, 0); 5];
    assert_eq!(generator.send_points(points), Ok(5));
    assert_eq!(sink.receive_stuff(100), Ok(5));
}

#[test]
fn point_generator_sends_its_count() {
    let sink: Receiver<Point> = Receiver::new();
    let generator = PointGenerator::new(9, sink.send_channel());
    assert_eq!(generator.generate_points(), Ok(9));
    assert_eq!(sink.receive_stuff(100), Ok(9));
}

#[test]
fn receiver_drains_nothing_when_no_producer_sends() {
    let sink: Receiver<Point> = Receiver::new();
    assert_eq!(sink.receive_stuff(10), Ok(0));
}

#[test]
fn manager_tallies_a_drained_channel() {
    // 12 inside samples with threshold 5: the manager flushes tallies of
    // 5, 5 and 2, and the reporter's snapshots show the running totals.
    let reporter = Reporter::new();
    let (point_sender, point_receiver) = unbounded_channel::<Point>();

    let generator = MessageGenerator::new(12, vec![point_sender]);
    let points = vec![Point::new(0, 0); 12];
    assert_eq!(generator.send_points(points), Ok(12));

    let manager = PointManager::with_threshold(reporter.get_sender(), point_receiver, 5);
    assert_eq!(manager.receive_stuff(100), Ok(12));

    let snapshots = reporter.report_stuff(100).unwrap();
    assert_eq!(
        snapshots,
        vec![Report::new(5, 5), Report::new(10, 10), Report::new(12, 12)]
    );
}

#[test]
fn send_to_a_gone_consumer_is_a_wiring_fault() {
    let sink: Receiver<Point> = Receiver::new();
    let orphan = sink.send_channel();
    drop(sink);
    let generator = MessageGenerator::new(1, vec![orphan]);
    assert_eq!(generator.send_messages(), Err(PipelineError::Disconnected));
}

#[test]
fn receiving_beyond_the_bound_is_a_capacity_fault() {
    let sink: Receiver<Point> = Receiver::new();
    let generator = MessageGenerator::new(5, vec![sink.send_channel()]);
    assert_eq!(generator.send_points(vec![Point::new(0, 0); 5]), Ok(5));
    assert_eq!(sink.receive_stuff(3), Err(PipelineError::CapacityExceeded));
}

#[test]
fn a_tally_that_no_longer_fits_is_an_overflow_fault() {
    let reporter = Reporter::new();
    let sender = reporter.get_sender();
    channel_send(&sender, Report::new(0, usize::MAX)).unwrap();
    channel_send(&sender, Report::new(0, 1)).unwrap();
    release_sender(sender);
    assert_eq!(reporter.report_stuff(10), Err(PipelineError::TallyOverflow));
}
