use niri_launcher::pstree::ProcessRecord;
use niri_launcher::status::process_record_from_status;

fn lines(text: &[&str]) -> Vec<String> {
    text.iter().map(|l| l.to_string()).collect()
}

#[test]
fn reads_pid_and_parent() {
    let status = lines(&["Name:\tzsh\n", "Umask:\t0022\n", "State:\tS (sleeping)\n", "Tgid:\t4242\n",
        "Pid:\t4242\n", "PPid:\t17\n", "TracerPid:\t0\n"]);
    assert_eq!(process_record_from_status(&status), Some(ProcessRecord { pid: 4242, ppid: 17 }));
}

#[test]
fn missing_parent_gives_nothing() {
    assert_eq!(process_record_from_status(&lines(&["Pid:\t1\n"])), None);
    assert_eq!(process_record_from_status(&lines(&[])), None);
}

#[test]
fn unparsable_value_gives_nothing() {
    assert_eq!(process_record_from_status(&lines(&["Pid:\tabc\n", "PPid:\t1\n"])), None);
    assert_eq!(process_record_from_status(&lines(&["Pid:\t\n", "PPid:\t1\n"])), None);
    assert_eq!(process_record_from_status(&lines(&["Pid:\t-\n", "PPid:\t1\n"])), None);
    assert_eq!(process_record_from_status(&lines(&["Pid:\t2147483648\n", "PPid:\t1\n"])), None);
}

#[test]
fn signs_and_limits() {
    assert_eq!(
        process_record_from_status(&lines(&["Pid: +2147483647\n", "PPid: -2147483648\n"])),
        Some(ProcessRecord { pid: 2147483647, ppid: -2147483648 })
    );
}

#[test]
fn keys_and_values_are_trimmed_and_later_lines_win() {
    let status = lines(&["  Pid \u{3000}: 5 \r\n", "PPid:1:2\n", "PPid: 3\n", "Pidx: 9\n", "no colon\n"]);
    assert_eq!(process_record_from_status(&status), Some(ProcessRecord { pid: 5, ppid: 3 }));
}

#[test]
fn later_bad_line_clears_field() {
    let status = lines(&["Pid: 5\n", "PPid: 3\n", "Pid: x\n"]);
    assert_eq!(process_record_from_status(&status), None);
}
