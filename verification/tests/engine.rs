use rustray::engine::{RenderJob, RenderSchedule};

#[test]
fn render_job_builders() {
    let job = RenderJob::new();
    assert_eq!(job.get_lines(100), (0, 100));
    assert_eq!(job.get_mult(), (1, 1));
    let job = job.with_mult(3).with_first_line(10).with_last_line(20);
    assert_eq!(job.get_lines(100), (10, 20));
    assert_eq!(job.get_mult(), (3, 3));
    let job = job.with_mult_x(2).with_mult_y(4);
    assert_eq!(job.get_mult(), (2, 4));
}

#[test]
fn render_schedule_hands_out_lines_once() {
    let mut s = RenderSchedule::new(8, 10);
    assert_eq!(s.size(), (8, 10));
    let job = RenderJob::new().with_mult(3);
    assert_eq!(s.submit(&job), vec![0, 3, 6, 9]);
    assert!(s.is_dirty(3));
    assert!(!s.is_dirty(4));
    assert_eq!(s.submit(&job), Vec::<u32>::new());
    s.finish(3, 3);
    assert!(!s.is_dirty(3));
    assert_eq!(s.submit(&job), vec![3]);
    let all = RenderJob::new();
    assert_eq!(s.submit(&all), vec![1, 2, 4, 5, 7, 8]);
}
