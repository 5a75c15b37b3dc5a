use byos_rust::page::{data_url, navigation_target, Action, DocumentSource, Event, RenderJob};
use byos_rust::render::{process, RenderError, RenderedImage};
use image::ImageEncoder;

fn white_screenshot() -> Vec<u8> {
    let mut data = Vec::new();
    image::codecs::png::PngEncoder::new(&mut data)
        .write_image(&vec![255u8; 800 * 480 * 4], 800, 480, image::ExtendedColorType::Rgba8)
        .expect("the raster encodes");
    data
}

fn job() -> RenderJob {
    RenderJob::new(&DocumentSource::Url("https://example.com/page".to_string()), RenderedImage::from_id("abc"))
}

/// Runs a job on the given reports and returns what it asked for and what it came to.
fn run(mut job: RenderJob, events: Vec<Event>) -> (Vec<Action>, RenderJob) {
    let mut actions = Vec::new();
    for event in events {
        let (next, action) = job.step(event);
        job = next;
        actions.push(action);
    }
    (actions, job)
}

#[test]
fn data_url_percent_encodes_the_document() {
    assert_eq!(data_url("<p>hi there</p>"), "data:text/html;charset=utf-8,%3Cp%3Ehi%20there%3C%2Fp%3E");
    assert_eq!(data_url(""), "data:text/html;charset=utf-8,");
    assert_eq!(data_url("AZaz09-._~"), "data:text/html;charset=utf-8,AZaz09-._~");
    assert_eq!(data_url("é日\n/%"), "data:text/html;charset=utf-8,%C3%A9%E6%97%A5%0A%2F%25");
    assert_eq!(data_url("\u{0}\u{7f}+"), "data:text/html;charset=utf-8,%00%7F%2B");
}

#[test]
fn navigation_target_of_each_source() {
    assert_eq!(navigation_target(&DocumentSource::Url("https://example.com/a b".to_string())), "https://example.com/a b");
    assert_eq!(
        navigation_target(&DocumentSource::Html("<b>x</b>".to_string())),
        "data:text/html;charset=utf-8,%3Cb%3Ex%3C%2Fb%3E"
    );
}

#[test]
fn job_that_meets_no_failure_writes_both_files() {
    let screenshot = white_screenshot();
    let files = process(&screenshot).unwrap();
    let (actions, job) = run(
        job(),
        vec![
            Event::Succeeded,
            Event::Succeeded,
            Event::Succeeded,
            Event::Succeeded,
            Event::Succeeded,
            Event::Succeeded,
            Event::Captured(screenshot),
            Event::Succeeded,
            Event::Succeeded,
            Event::Succeeded,
            Event::Succeeded,
        ],
    );
    assert_eq!(
        actions,
        vec![
            Action::Launch { width: 800, height: 480 },
            Action::OpenTab,
            Action::SetViewport { width: 800, height: 480, mobile: false },
            Action::Navigate { target: "https://example.com/page".to_string() },
            Action::AwaitLoad,
            Action::Capture,
            Action::Release,
            Action::EnsureDirectory { path: "assets/images/generated".to_string() },
            Action::Write { path: "assets/images/generated/abc.png".to_string(), data: files.png },
            Action::Write { path: "assets/images/generated/abc.bmp".to_string(), data: files.bmp },
            Action::Finish,
        ]
    );
    assert!(job.is_finished());
    assert!(!job.session_open);
    assert_eq!(job.outcome(), Some(Ok(RenderedImage::from_id("abc"))));
}

#[test]
fn job_is_not_over_before_its_last_step() {
    let (_, running) = run(job(), vec![Event::Succeeded, Event::Succeeded, Event::Succeeded]);
    assert!(!running.is_finished());
    assert!(running.session_open);
    assert_eq!(running.outcome(), None);
    let fresh = job();
    assert!(!fresh.is_finished() && !fresh.session_open);
    assert_eq!(fresh.outcome(), None);
}

#[test]
fn failed_launch_ends_the_job_without_a_session() {
    let (actions, job) = run(job(), vec![Event::Failed, Event::Failed]);
    assert_eq!(actions, vec![Action::Launch { width: 800, height: 480 }, Action::Finish]);
    assert!(!job.session_open);
    assert_eq!(job.outcome(), Some(Err(RenderError::SessionLaunch)));
}

#[test]
fn failure_with_a_session_releases_it_first() {
    let cases = [(2usize, RenderError::SessionLaunch), (3, RenderError::Navigation), (4, RenderError::Navigation), (5, RenderError::Navigation), (6, RenderError::Capture)];
    for (failing, expected) in cases {
        let mut events = vec![Event::Succeeded; failing];
        events.push(Event::Failed);
        let (actions, waiting) = run(job(), events);
        assert_eq!(actions.last(), Some(&Action::Release));
        assert_eq!(actions.iter().filter(|a| **a == Action::Release).count(), 1);
        assert!(waiting.session_open);
        assert!(!waiting.is_finished());
        let (next, action) = waiting.step(Event::Succeeded);
        assert_eq!(action, Action::Finish);
        assert!(!next.session_open);
        assert_eq!(next.outcome(), Some(Err(expected)));
    }
}

#[test]
fn capture_without_data_is_a_failure_to_capture() {
    let (actions, job) = run(job(), vec![Event::Succeeded; 8]);
    assert_eq!(actions[6], Action::Release);
    assert_eq!(actions[7], Action::Finish);
    assert_eq!(job.outcome(), Some(Err(RenderError::Capture)));
}

#[test]
fn screenshot_that_is_no_picture_ends_the_job_after_the_release() {
    let mut events = vec![Event::Succeeded; 6];
    events.push(Event::Captured(b"not a picture".to_vec()));
    events.push(Event::Failed);
    let (actions, job) = run(job(), events);
    assert_eq!(actions[6], Action::Release);
    assert_eq!(actions[7], Action::Finish);
    assert!(!job.session_open);
    assert_eq!(job.outcome(), Some(Err(RenderError::Decode)));
}

#[test]
fn failure_to_write_leaves_no_rendered_image() {
    for failing in [8usize, 9, 10] {
        let mut events = vec![Event::Succeeded; 6];
        events.push(Event::Captured(white_screenshot()));
        while events.len() < failing {
            events.push(Event::Succeeded);
        }
        events.push(Event::Failed);
        let (actions, job) = run(job(), events);
        assert_eq!(actions.last(), Some(&Action::Finish));
        assert_eq!(actions.len(), failing + 1);
        assert!(!job.session_open);
        assert_eq!(job.outcome(), Some(Err(RenderError::Io)));
    }
}

#[test]
fn job_is_over_after_eleven_steps_whatever_is_reported() {
    let reports = [Event::Succeeded, Event::Failed, Event::Captured(white_screenshot()), Event::Captured(Vec::new())];
    for first in 0..4usize {
        for stride in 1..4usize {
            let events: Vec<Event> = (0..11).map(|i| reports[(first + i * stride) % 4].clone()).collect();
            let (actions, job) = run(job(), events);
            assert!(job.is_finished());
            assert!(!job.session_open);
            assert_eq!(actions.iter().filter(|a| **a == Action::Launch { width: 800, height: 480 }).count(), 1);
            assert!(actions.iter().filter(|a| **a == Action::Release).count() <= 1);
            let (again, action) = job.step(Event::Failed);
            assert_eq!(action, Action::Finish);
            assert!(again.is_finished());
        }
    }
}

#[test]
fn inline_document_is_navigated_to_as_a_data_address() {
    let job = RenderJob::new(&DocumentSource::Html("<p>x</p>".to_string()), RenderedImage::from_id("abc"));
    let (actions, _) = run(job, vec![Event::Succeeded; 4]);
    assert_eq!(actions[3], Action::Navigate { target: "data:text/html;charset=utf-8,%3Cp%3Ex%3C%2Fp%3E".to_string() });
}
