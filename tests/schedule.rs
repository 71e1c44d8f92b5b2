use raytracer::schedule::{PassStep, RenderRun};

#[test]
fn delivered_run_makes_every_pass() {
    let mut run = RenderRun::new(3);
    for k in 0..3 {
        assert_eq!(run.next_step(), PassStep::Sample { pass: k });
        run.pass_ended(true);
    }
    assert_eq!(run.next_step(), PassStep::Done);
}

#[test]
fn undelivered_pass_stops_the_run() {
    let mut run = RenderRun::new(5);
    assert_eq!(run.next_step(), PassStep::Sample { pass: 0 });
    run.pass_ended(true);
    assert_eq!(run.next_step(), PassStep::Sample { pass: 1 });
    run.pass_ended(false);
    assert_eq!(run.next_step(), PassStep::Stopped);
    assert_eq!(run.next_step(), PassStep::Stopped);
}

#[test]
fn run_without_samples_is_done_at_once() {
    let run = RenderRun::new(0);
    assert_eq!(run.next_step(), PassStep::Done);
}
