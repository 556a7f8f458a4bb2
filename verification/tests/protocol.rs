use milkrs::Milk;
use milkrs::OpenPhase;
use milkrs::SessionError;
use milkrs::channel_path;
use milkrs::is_single_line;
use milkrs::fresh_channel_path;
use milkrs::open_advance;
use milkrs::write_outcome;

#[test]
fn channel_path_pads_to_six_digits() {
    assert_eq!(channel_path(0), "/tmp/.fifo.000000");
    assert_eq!(channel_path(7), "/tmp/.fifo.000007");
    assert_eq!(channel_path(42), "/tmp/.fifo.000042");
    assert_eq!(channel_path(123456), "/tmp/.fifo.123456");
    assert_eq!(channel_path(999999), "/tmp/.fifo.999999");
}

#[test]
fn channel_path_largest_suffix_keeps_all_digits() {
    assert_eq!(channel_path(1_000_000), "/tmp/.fifo.1000000");
}

#[test]
fn channel_paths_of_distinct_suffixes_differ() {
    let suffixes: Vec<u64> = vec![0, 1, 9, 10, 99, 100, 54321, 999999, 1_000_000];
    let paths: Vec<String> = suffixes.iter().map(|s| channel_path(*s)).collect();
    for i in 0..paths.len() {
        for j in 0..paths.len() {
            if i != j {
                assert_ne!(paths[i], paths[j]);
            }
        }
    }
}

#[test]
fn fresh_channel_path_is_well_formed() {
    for _ in 0..100 {
        let p = fresh_channel_path();
        let suffix = p.strip_prefix("/tmp/.fifo.").expect("fixed prefix");
        assert!(suffix.len() >= 6);
        let n: u64 = suffix.parse().expect("decimal suffix");
        assert!(n <= 1_000_000);
        assert_eq!(p, channel_path(n));
    }
}

#[test]
fn session_path_matches_its_suffix() {
    let milk = Milk::with_suffix(31415);
    assert_eq!(milk.path(), "/tmp/.fifo.031415");
}

#[test]
fn fresh_session_path_is_well_formed() {
    let milk = Milk::new();
    let suffix = milk.path().strip_prefix("/tmp/.fifo.").expect("fixed prefix");
    let n: u64 = suffix.parse().expect("decimal suffix");
    assert!(n <= 1_000_000);
}

#[test]
fn cmd_frames_one_command() {
    let mut milk = Milk::with_suffix(1);
    let frame = milk.cmd("mk3Dim out1 512 512 512");
    assert_eq!(frame, "mk3Dim out1 512 512 512\n");
}

#[test]
fn cmds_keeps_submission_order() {
    let mut milk = Milk::with_suffix(2);
    let stream = milk.cmds(vec![
        "mk3Dim out1 512 512 512",
        "imcp2shm out1 outs1",
        "writef2file \"/tmp/tmp.txt\" 1000",
    ]);
    assert_eq!(
        stream,
        "mk3Dim out1 512 512 512\nimcp2shm out1 outs1\nwritef2file \"/tmp/tmp.txt\" 1000\n"
    );
}

#[test]
fn cmds_of_nothing_is_an_empty_stream() {
    let mut milk = Milk::with_suffix(3);
    let stream = milk.cmds(vec![]);
    assert_eq!(stream, "");
}

#[test]
fn singles_and_batch_put_the_same_bytes_on_the_channel() {
    let mut one_by_one = Milk::with_suffix(4);
    let mut stream = String::new();
    stream += &one_by_one.cmd("first");
    stream += &one_by_one.cmd("second");
    stream += &one_by_one.cmd("third");

    let mut batched = Milk::with_suffix(4);
    let batch = batched.cmds(vec!["first", "second", "third"]);
    assert_eq!(stream, batch);
}

#[test]
fn close_frames_the_termination_command_last() {
    let mut milk = Milk::with_suffix(5);
    let mut stream = milk.cmds(vec!["writef2file \"/tmp/out.txt\" 0.5"]);
    stream += &milk.close();
    assert_eq!(stream, "writef2file \"/tmp/out.txt\" 0.5\nexit\n");
    assert!(stream.ends_with("exit\n"));
}

#[test]
fn open_handshake_reaches_ready_when_every_step_succeeds() {
    let mut phase = OpenPhase::CreateChannel;
    phase = open_advance(phase, true);
    assert_eq!(phase, OpenPhase::SpawnProcess);
    phase = open_advance(phase, true);
    assert_eq!(phase, OpenPhase::OpenChannel);
    phase = open_advance(phase, true);
    assert_eq!(phase, OpenPhase::Ready);
}

#[test]
fn failed_channel_creation_aborts_with_its_error() {
    let phase = open_advance(OpenPhase::CreateChannel, false);
    assert_eq!(phase, OpenPhase::Aborted(SessionError::ChannelCreation));
}

#[test]
fn failed_spawn_aborts_with_its_error() {
    let phase = open_advance(OpenPhase::SpawnProcess, false);
    assert_eq!(phase, OpenPhase::Aborted(SessionError::ProcessSpawn));
}

#[test]
fn failed_channel_open_aborts_with_its_error() {
    let phase = open_advance(OpenPhase::OpenChannel, false);
    assert_eq!(phase, OpenPhase::Aborted(SessionError::ChannelOpen));
}

#[test]
fn aborted_handshake_stays_aborted() {
    let phase = OpenPhase::Aborted(SessionError::ProcessSpawn);
    assert_eq!(open_advance(phase, true), phase);
    assert_eq!(open_advance(phase, false), phase);
}

#[test]
fn single_line_commands_are_recognised() {
    assert!(is_single_line("mk3Dim out1 512 512 512"));
    assert!(is_single_line(""));
    assert!(is_single_line("exit"));
    assert!(!is_single_line("one\ntwo"));
    assert!(!is_single_line("\n"));
    assert!(!is_single_line("trailing\n"));
}

#[test]
fn rejected_write_fails_loud() {
    assert_eq!(write_outcome(false), Err(SessionError::CommandWrite));
}

#[test]
fn accepted_write_is_a_success() {
    assert_eq!(write_outcome(true), Ok(()));
}
