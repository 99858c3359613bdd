use monitor::apt::aptcheckbrief;
use monitor::bytesize::byte_size;
use monitor::disk::{disk, resolve_mount, DiskStats};
use monitor::not_found;
use monitor::osrelease::{get_param, os_codename, os_name, os_vernamename, os_version};
use monitor::port;
use monitor::reboot;
use monitor::sensors::{parse_sensor_output, query_readings, sensors, show_sensors};
use monitor::status;
use monitor::temp::temp;
use monitor::unameinfo::{unameinfo, UnameData};
use monitor::uptime::uptime;

#[test]
fn byte_size_zero() {
    assert_eq!(byte_size(0), "0 B");
}

#[test]
fn byte_size_boundary() {
    assert_eq!(byte_size(1023), "1023 B");
    assert_eq!(byte_size(1024), "1 KB");
    assert_eq!(byte_size(1025), "1 KB");
}

#[test]
fn byte_size_rounding() {
    assert_eq!(byte_size(1536), "2 KB");
    assert_eq!(byte_size(1535), "1 KB");
}

#[test]
fn byte_size_units() {
    assert_eq!(byte_size(1048576), "1 MB");
    assert_eq!(byte_size(1073741824), "1 GB");
    assert_eq!(byte_size(1048575), "1024 KB");
    assert_eq!(byte_size(u64::MAX), "16 EB");
}

#[test]
fn sensors_basic_lookup() {
    let out = "coretemp-isa-0000\nPackage id 0:  +45.0\u{b0}C  (high = +80.0\u{b0}C)\n";
    assert_eq!(
        sensors("coretemp-isa-0000", "Package_id_0", Some(out)),
        "+45.0\u{b0}C"
    );
}

#[test]
fn sensors_case_insensitive_lookup() {
    let out = "coretemp-isa-0000\nPackage id 0:  +45.0\u{b0}C  (high = +80.0\u{b0}C)\n";
    assert_eq!(
        sensors("CORETEMP-ISA-0000", "package_ID_0", Some(out)),
        "+45.0\u{b0}C"
    );
}

#[test]
fn sensors_not_available() {
    assert_eq!(sensors("any", "thing", None), "404 - sensors not available");
}

#[test]
fn sensors_no_match() {
    let out = "coretemp-isa-0000\nPackage id 0:  +45.0\u{b0}C\n";
    assert_eq!(
        sensors("coretemp-isa-0000", "Core_1", Some(out)),
        "404-Feature not found"
    );
}

#[test]
fn sensors_parse_readings() {
    let out = "coretemp-isa-0000\nPackage id 0:  +45.0\u{b0}C  (high = +80.0\u{b0}C)\n\
               (annotation: ignored)\n  indented: ignored\n\nacpitz-acpi-0\ntemp1: +27.8\u{b0}C\n";
    let rs = parse_sensor_output(out);
    assert_eq!(rs.len(), 2);
    assert_eq!(rs[0].device, "coretemp-isa-0000");
    assert_eq!(rs[0].metric_name, "Package_id_0");
    assert_eq!(rs[0].value, "+45.0\u{b0}C");
    assert_eq!(rs[1].device, "acpitz-acpi-0");
    assert_eq!(rs[1].metric_name, "temp1");
    assert_eq!(rs[1].value, "+27.8\u{b0}C");
}

#[test]
fn sensors_query_tells_no_match_from_absent_probe() {
    let rs = parse_sensor_output("chip0\ntemp1: +10.0\u{b0}C\n");
    assert_eq!(
        query_readings(&rs, "chip0", "temp1"),
        Some("+10.0\u{b0}C".to_string())
    );
    assert_eq!(query_readings(&rs, "chip0", "missing"), None);
}

#[test]
fn sensors_name_normalization() {
    let rs = parse_sensor_output("chip0\n+5V in/out 1.2:  0.93 V\n");
    assert_eq!(rs.len(), 1);
    assert_eq!(rs[0].metric_name, "5V_in_out_1_2");
    assert_eq!(rs[0].value, "0.93");
}

#[test]
fn sensors_listing() {
    let out = "coretemp-isa-0000\nPackage id 0:  +45.0\u{b0}C\n";
    let lines = show_sensors("myhost", 9000, Some(out));
    assert_eq!(lines.len(), 1);
    assert_eq!(
        lines[0],
        "http://myhost:9000/sensors/coretemp-isa-0000/Package_id_0 = +45.0\u{b0}C"
    );
    assert_eq!(show_sensors("myhost", 9000, None).len(), 0);
}

#[test]
fn sensors_split_at_first_colon_only() {
    let rs = parse_sensor_output("chip0\nt: 1:2 x\n");
    assert_eq!(rs.len(), 1);
    assert_eq!(rs[0].metric_name, "t");
    assert_eq!(rs[0].value, "1:2");
}

#[test]
fn crlf_line_endings_read_like_lf() {
    let rs = parse_sensor_output("chip0\r\ntemp1: +10.0\u{b0}C\r\n");
    assert_eq!(rs.len(), 1);
    assert_eq!(rs[0].device, "chip0");
    assert_eq!(rs[0].metric_name, "temp1");
    assert_eq!(rs[0].value, "+10.0\u{b0}C");
    assert_eq!(get_param("NAME=\"Ubuntu\"\r\n", "NAME"), "Ubuntu");
}

#[test]
fn os_release_found() {
    let contents = "NAME=\"Ubuntu\"\nVERSION_ID=\"20.04\"\n";
    assert_eq!(get_param(contents, "NAME"), "Ubuntu");
    assert_eq!(get_param(contents, "VERSION_ID"), "20.04");
}

#[test]
fn os_release_missing_key() {
    let contents = "NAME=\"Ubuntu\"\nVERSION_ID=\"20.04\"\n";
    assert_eq!(get_param(contents, "MISSING"), "404 - key MISSING not found");
}

#[test]
fn os_release_unquoted_value() {
    assert_eq!(get_param("ID=ubuntu\n", "ID"), "ubuntu");
}

#[test]
fn os_release_strips_only_surrounding_quote_pairs() {
    assert_eq!(get_param("K=\"v\n", "K"), "\"v");
    assert_eq!(get_param("K=\"\"\n", "K"), "");
}

#[test]
fn os_release_first_match_wins() {
    assert_eq!(get_param("K=first\nK=second\n", "K"), "first");
}

#[test]
fn os_release_field_helpers() {
    let contents =
        "NAME=\"Ubuntu\"\nVERSION=\"20.04.6 LTS (Focal Fossa)\"\nVERSION_ID=\"20.04\"\nUBUNTU_CODENAME=focal\n";
    assert_eq!(os_name(contents), "Ubuntu");
    assert_eq!(os_version(contents), "20.04");
    assert_eq!(os_vernamename(contents), "20.04.6 LTS (Focal Fossa)");
    assert_eq!(os_codename(contents), "focal");
}

#[test]
fn disk_percentages() {
    let st = DiskStats {
        block_size: 4096,
        blocks: 1000,
        blocks_free: 250,
        blocks_avail: 200,
        files: 12345,
    };
    assert_eq!(disk("root", "freep", Some(&st)), "25%");
    assert_eq!(disk("root", "usedp", Some(&st)), "75%");
}

#[test]
fn disk_percentages_sum_to_hundred() {
    for free in [0u64, 1, 333, 999, 1000] {
        let st = DiskStats {
            block_size: 4096,
            blocks: 1000,
            blocks_free: free,
            blocks_avail: free,
            files: 0,
        };
        let freep: u64 = disk("root", "freep", Some(&st))
            .trim_end_matches('%')
            .parse()
            .unwrap();
        let usedp: u64 = disk("root", "usedp", Some(&st))
            .trim_end_matches('%')
            .parse()
            .unwrap();
        assert_eq!(freep + usedp, 100);
    }
}

#[test]
fn disk_zero_blocks_guarded() {
    let st = DiskStats { block_size: 4096, blocks: 0, blocks_free: 0, blocks_avail: 0, files: 0 };
    assert_eq!(disk("root", "freep", Some(&st)), "no capacity data");
    assert_eq!(disk("root", "usedp", Some(&st)), "no capacity data");
}

#[test]
fn disk_byte_metrics() {
    let st = DiskStats {
        block_size: 1024,
        blocks: 2048,
        blocks_free: 1024,
        blocks_avail: 1024,
        files: 99,
    };
    assert_eq!(disk("root", "total", Some(&st)), "2 MB");
    assert_eq!(disk("root", "free", Some(&st)), "1 MB");
    assert_eq!(disk("root", "avail", Some(&st)), "1 MB");
    assert_eq!(disk("root", "files", Some(&st)), "99");
}

#[test]
fn disk_unknown_param() {
    let st = DiskStats { block_size: 1, blocks: 1, blocks_free: 1, blocks_avail: 1, files: 1 };
    assert_eq!(disk("root", "bogus", Some(&st)), "unknown param");
}

#[test]
fn disk_probe_failure() {
    assert_eq!(disk("data", "avail", None), "io error on disk: /data");
    assert_eq!(disk("root", "avail", None), "io error on disk: /");
}

#[test]
fn mount_resolution() {
    assert_eq!(resolve_mount("root"), "/");
    assert_eq!(resolve_mount("home"), "/home");
}

#[test]
fn uptime_formatting() {
    assert_eq!(uptime(90061.0 as u64), "1d 1h 1m 1s");
}

#[test]
fn uptime_small_values() {
    assert_eq!(uptime(0), "0d 0h 0m 0s");
    assert_eq!(uptime(59), "0d 0h 0m 59s");
    assert_eq!(uptime(86400), "1d 0h 0m 0s");
}

#[test]
fn apt_brief_two_fields() {
    assert_eq!(aptcheckbrief("5;2"), "Installable: 5 - Security: 2");
}

#[test]
fn apt_brief_extra_fields() {
    assert_eq!(aptcheckbrief("5;2;junk"), "Installable: 5 - Security: 2");
}

#[test]
fn apt_brief_malformed() {
    assert_eq!(aptcheckbrief("no separator here"), "apt-check: unexpected output");
}

#[test]
fn temp_whole_degrees() {
    assert_eq!(temp(Some("45000\n")), "45");
    assert_eq!(temp(Some("+45999")), "45");
}

#[test]
fn temp_negative_truncates_toward_zero() {
    assert_eq!(temp(Some("-5500")), "-5");
    assert_eq!(temp(Some("-500")), "0");
}

#[test]
fn temp_file_absent() {
    assert_eq!(temp(None), "404 - Not odroid XU4 ");
}

#[test]
fn temp_unreadable() {
    assert_eq!(temp(Some("abc")), "404 - sensor unreadable");
    assert_eq!(temp(Some("")), "404 - sensor unreadable");
    assert_eq!(temp(Some("12x3")), "404 - sensor unreadable");
    assert_eq!(temp(Some("2147483648")), "404 - sensor unreadable");
    assert_eq!(temp(Some("-2147483648")), "-2147483");
}

#[test]
fn uname_selectors() {
    let info = UnameData {
        nodename: "host1".to_string(),
        sysname: "Linux".to_string(),
        release: "5.15.0".to_string(),
        version: "#1 SMP".to_string(),
        machine: "x86_64".to_string(),
    };
    assert_eq!(unameinfo("n", &info), "host1");
    assert_eq!(unameinfo("s", &info), "Linux");
    assert_eq!(unameinfo("r", &info), "5.15.0");
    assert_eq!(unameinfo("v", &info), "#1 SMP");
    assert_eq!(unameinfo("m", &info), "x86_64");
    assert_eq!(unameinfo("x", &info), "Param?");
}

#[test]
fn port_verdicts() {
    assert_eq!(port(true), "Up");
    assert_eq!(port(false), "Down");
}

#[test]
fn reboot_marker() {
    assert_eq!(reboot(true), "REBOOT REQUIRED");
    assert_eq!(reboot(false), "");
}

#[test]
fn status_line() {
    assert_eq!(status(), "Status - Running - 0.2");
}

#[test]
fn unmatched_path_body() {
    assert_eq!(not_found(), "404 - Sorry, I can't do that Dave.");
}
