use rsynced::job::{permission_signature, preflight, Job, Phase, Preflight};
use rsynced::options::{preview_args, SyncOptions};
use rsynced::stream::{
    file_line, file_name, split_segments, CompletionLatch, FileEvent, JobEvent, OutputPump,
};

const PREVIEW_OUT: &str = "Number of files: 5 (reg: 4, dir: 1)\n\
                           total size is 4,096  speedup is 1.00 (DRY RUN)\n";

/// Drives a job through the preview step, counting the transfers it asks
/// to start.
fn run_preview(job: &mut Job, out: &str, err: &str, spawned: &mut u32) {
    assert!(job.start());
    assert_eq!(job.phase(), Phase::DryRunning);
    if let Some(_total) = job.preview_finished(out, err, permission_signature()) {
        *spawned += 1;
    }
}

fn progress_event(pump: &mut OutputPump, line: &str) -> Vec<JobEvent> {
    pump.feed_line(line)
}

#[test]
fn segments_split_on_carriage_returns() {
    let v = split_segments("a\rb\r\nc\n\nd");
    assert_eq!(v, vec!["a", "b", "c", "d"]);
    assert!(split_segments("").is_empty());
    assert!(split_segments("\r\n\r").is_empty());
}

#[test]
fn file_lines_and_names() {
    assert!(file_line(">f+++++++++ docs/readme.txt"));
    assert!(file_line("<f.st...... up.bin"));
    assert!(!file_line("sending incremental file list"));
    assert!(!file_line(""));
    assert!(!file_line(" >f+++++++++ a.txt"));
    assert_eq!(file_name(">f+++++++++ docs/my file.txt"), "file.txt");
    assert_eq!(file_name(">f+++++++++ docs/my file.txt  "), "");
    assert_eq!(file_name(">f+++++++++"), ">f+++++++++");
}

#[test]
fn pump_counts_files_and_carries_fraction() {
    let mut pump = OutputPump::new(4);
    let ev = progress_event(&mut pump, ">f+++++++++ a.txt");
    assert_eq!(ev.len(), 1);
    match &ev[0] {
        JobEvent::File(f) => {
            assert_eq!(f.ordinal, 1);
            assert_eq!(f.name, "a.txt");
        }
        _ => panic!("expected a file event"),
    }
    let ev = progress_event(&mut pump, "  2,048  50%  1.00MB/s  0:00:01");
    assert_eq!(ev.len(), 1);
    match &ev[0] {
        JobEvent::Progress(p) => {
            assert_eq!(p.files_done, 1);
            assert_eq!(p.total_units, 4);
            assert_eq!(p.record.bytes_transferred, 2048);
            assert_eq!(p.record.percentage, 50);
        }
        _ => panic!("expected a progress event"),
    }
    assert!(progress_event(&mut pump, "sent 1 bytes").is_empty());
    assert!(progress_event(&mut pump, " >f+++++++++ indented.txt").is_empty());
    assert_eq!(pump.files_seen(), 1);
}

#[test]
fn empty_file_name_counts_without_log_line() {
    let mut job = Job::new();
    let mut spawned = 0;
    run_preview(&mut job, PREVIEW_OUT, "", &mut spawned);
    let mut pump = OutputPump::new(4);
    for ev in pump.feed_line(">f+++++++++ ") {
        match &ev {
            JobEvent::File(f) => assert_eq!(f.name, ""),
            _ => panic!("expected a file event"),
        }
        job.handle(ev);
    }
    assert_eq!(pump.files_seen(), 1);
    assert_eq!(job.overall_progress(), (1, 4));
    assert!(job.log().is_empty());
}

#[test]
fn latch_completes_once_after_both_streams() {
    let mut latch = CompletionLatch::new(2);
    assert!(!latch.stream_closed());
    assert!(latch.stream_closed());
    assert!(!latch.stream_closed());
}

#[test]
fn preflight_verdicts() {
    let sig = permission_signature();
    assert_eq!(preflight(PREVIEW_OUT, "", sig), Preflight::Ready(4));
    assert_eq!(preflight(PREVIEW_OUT, "  \n", sig), Preflight::Ready(4));
    assert_eq!(
        preflight("", "user@host: Permission denied (publickey).\n", sig),
        Preflight::AuthDenied
    );
    assert_eq!(preflight(PREVIEW_OUT, "rsync: link_stat failed\n", sig), Preflight::PreviewError);
    assert_eq!(preflight("nothing useful\n", "", sig), Preflight::SizeUnknown);
    assert_eq!(preflight("x", "Access refused", "refused"), Preflight::AuthDenied);
}

#[test]
fn auth_failure_stops_before_transfer() {
    let mut job = Job::new();
    let mut spawned = 0;
    run_preview(&mut job, "", "Permission denied (publickey,password).", &mut spawned);
    assert_eq!(spawned, 0);
    assert_eq!(job.phase(), Phase::Failed);
    assert_eq!(job.errors().len(), 2);
    assert_eq!(
        job.errors()[1],
        "Access denied when connecting to the server via SSH. Please check if your SSH key is configured."
    );
}

#[test]
fn other_diagnostics_stop_before_transfer() {
    let mut job = Job::new();
    let mut spawned = 0;
    run_preview(&mut job, PREVIEW_OUT, "rsync error: some files vanished", &mut spawned);
    assert_eq!(spawned, 0);
    assert_eq!(job.phase(), Phase::Failed);
    assert_eq!(job.errors(), &vec!["rsync error: some files vanished".to_string()]);
}

#[test]
fn unknown_size_stops_before_transfer() {
    let mut job = Job::new();
    let mut spawned = 0;
    run_preview(&mut job, "garbage", "", &mut spawned);
    assert_eq!(spawned, 0);
    assert_eq!(job.phase(), Phase::Failed);
    assert_eq!(job.errors()[0], "Could not determine the file count for the transfer.");
    assert_eq!(job.errors()[1], "garbage");
}

#[test]
fn full_job_runs_to_finish() {
    let mut job = Job::new();
    let mut spawned = 0;
    run_preview(&mut job, PREVIEW_OUT, "", &mut spawned);
    assert_eq!(spawned, 1);
    assert_eq!(job.phase(), Phase::Running);
    assert_eq!(job.speed(), "N/A");
    assert_eq!(job.estimated_time(), "N/A");

    let mut pump = OutputPump::new(4);
    let mut last = 0;
    let lines = [">f+++++++++ a", "100 10% 1kB/s 0:00:09", ">f+++++++++ b", "200 100% 2kB/s 0:00:00"];
    for line in lines {
        for ev in pump.feed_line(line) {
            job.handle(ev);
            let (done, total) = job.overall_progress();
            assert!(done >= last);
            assert_eq!(total, 4);
            last = done;
        }
        job.handle(JobEvent::Error("warning".to_string()));
    }
    assert_eq!(job.overall_progress(), (2, 4));
    assert_eq!(job.percentage(), 100);
    assert_eq!(job.bytes_transferred(), 200);
    assert_eq!(job.speed(), "2kB/s");
    assert_eq!(job.log(), &vec!["a".to_string(), "b".to_string()]);
    assert_eq!(job.errors().len(), 4);
    assert!(!job.is_finished());
    job.handle(JobEvent::Completed);
    assert!(job.is_finished());
    assert_eq!(job.phase(), Phase::Finished);
    assert!(job.start());
    assert_eq!(job.phase(), Phase::DryRunning);
    assert!(job.log().is_empty());
}

#[test]
fn overall_progress_is_capped_and_never_drops() {
    let mut job = Job::new();
    let mut spawned = 0;
    run_preview(&mut job, "Number of files: 1 (reg: 1, dir: 0)", "", &mut spawned);
    job.handle(JobEvent::File(FileEvent { ordinal: 3, name: String::new() }));
    assert_eq!(job.overall_progress(), (1, 1));
    job.handle(JobEvent::File(FileEvent { ordinal: 2, name: "x".to_string() }));
    assert_eq!(job.overall_progress(), (1, 1));
    assert_eq!(job.log(), &vec!["x".to_string()]);
}

#[test]
fn cancel_records_one_notice_and_still_finishes() {
    let mut job = Job::new();
    let mut spawned = 0;
    run_preview(&mut job, PREVIEW_OUT, "", &mut spawned);
    assert!(!job.start());
    assert!(job.can_cancel());
    assert!(job.cancel());
    assert!(!job.can_cancel());
    assert_eq!(job.phase(), Phase::Cancelled);
    assert!(!job.cancel());
    assert!(!job.cancel());
    assert_eq!(job.log(), &vec!["Operation Cancelled".to_string()]);
    assert!(!job.is_finished());
    assert!(!job.start());
    job.handle(JobEvent::Error("rsync error: received SIGINT".to_string()));
    job.handle(JobEvent::Completed);
    assert!(job.is_finished());
    assert_eq!(job.phase(), Phase::Cancelled);
    assert!(!job.cancel());
    assert_eq!(job.log().len(), 1);
}

#[test]
fn preview_outside_dry_run_is_ignored() {
    let mut job = Job::new();
    assert_eq!(job.preview_finished(PREVIEW_OUT, "", permission_signature()), None);
    assert_eq!(job.phase(), Phase::Idle);
}

#[test]
fn transfer_arguments() {
    let mut o = SyncOptions {
        archive: true,
        recursive: true,
        symlinks: false,
        permissions: false,
        time: false,
        group: false,
        compress: true,
    };
    assert_eq!(o.transfer_args("a/", "h:b/"), vec!["-i", "--progress", "-a", "-z", "a/", "h:b/"]);
    o.archive = false;
    o.time = true;
    o.compress = false;
    assert_eq!(o.transfer_args("a", "b"), vec!["-i", "--progress", "-r", "-t", "a", "b"]);
    assert_eq!(
        preview_args("a", "b"),
        vec![
            "-e",
            "ssh -o PasswordAuthentication=no -o PreferredAuthentications=publickey",
            "-an",
            "--stats",
            "a",
            "b"
        ]
    );
}
