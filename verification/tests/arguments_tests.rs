use rsrv::arguments::Arguments;
use rsrv::connection::ConnectionError;
use rsrv::default_file::DefaultFile;
use rsrv::directory::Directory;
use rsrv::hostname::Hostname;
use rsrv::port::Port;

fn args(v: &[&str]) -> Vec<String> {
    v.iter().map(|s| s.to_string()).collect()
}

#[test]
fn pattern_search_strips_the_flag() {
    let found = Arguments::search_cli_args_on_pattern(&args(&["bin", "--port=3000"]), "--port=");
    assert_eq!(found, vec!["3000".to_string()]);
}

#[test]
fn port_falls_back_to_the_default() {
    assert_eq!(Arguments::find_port_argument_or_get_default(&args(&["bin"])), 8080);
    assert_eq!(
        Arguments::find_port_argument_or_get_default(&args(&["bin", "--port=notanumber"])),
        8080
    );
    assert_eq!(
        Arguments::find_port_argument_or_get_default(&args(&[
            "bin",
            "--port=99999999999999999999999999"
        ])),
        8080
    );
}

#[test]
fn port_reads_the_first_flag() {
    assert_eq!(
        Arguments::find_port_argument_or_get_default(&args(&["bin", "--port=3000", "--port=4000"])),
        3000
    );
    assert_eq!(Port::find_port_argument_or_get_default(&args(&["--port=+81"])), 81);
}

#[test]
fn host_reads_the_flag_or_the_default() {
    assert_eq!(
        Arguments::find_host_argument_or_get_default(&args(&["bin"])).as_str(),
        "127.0.0.1"
    );
    assert_eq!(
        Arguments::find_host_argument_or_get_default(&args(&["bin", "--host=0.0.0.0"])).as_str(),
        "0.0.0.0"
    );
    assert_eq!(
        Hostname::find_host_argument_or_get_default(&args(&["--host=10.0.0.1"])).as_str(),
        "10.0.0.1"
    );
}

#[test]
fn cors_normalizes_true_and_star() {
    assert_eq!(Arguments::find_cors_argument_or_get_default(&args(&["bin"])), None);
    assert_eq!(
        Arguments::find_cors_argument_or_get_default(&args(&["bin", "--cors=true"])).as_deref(),
        Some("*")
    );
    assert_eq!(
        Arguments::find_cors_argument_or_get_default(&args(&["bin", "--cors=*"])).as_deref(),
        Some("*")
    );
    assert_eq!(
        Arguments::find_cors_argument_or_get_default(&args(&["bin", "--cors=https://a.example"]))
            .as_deref(),
        Some("https://a.example")
    );
}

#[test]
fn compression_flag_is_detected() {
    assert_eq!(
        Arguments::find_compression_argument_or_get_default(&args(&["bin"])),
        None
    );
    assert_eq!(
        Arguments::find_compression_argument_or_get_default(&args(&["bin", "--no-compression"])),
        Some(())
    );
}

#[test]
fn cache_control_splices_the_configured_max_age() {
    assert_eq!(
        Arguments::find_cache_control_argument_or_get_default(&args(&["bin"])).as_str(),
        "private, max-age=259200, must-revalidate"
    );
    assert_eq!(
        Arguments::find_cache_control_argument_or_get_default(&args(&[
            "bin",
            "--cache-control=60"
        ]))
        .as_str(),
        "private, max-age=60, must-revalidate"
    );
}

#[test]
fn directory_flags_are_selected_and_stripped() {
    let found = Arguments::find_directory_arguments(&args(&["bin", "--dir=public", "--port=1"]));
    assert_eq!(found, vec!["public".to_string()]);
    let kept = Directory::find_directory_arguments(&args(&["bin", "--dir=public"]));
    assert_eq!(kept, vec!["--dir=public".to_string()]);
    let stripped = Directory::get_directories_as_strings(&kept);
    assert_eq!(stripped, vec!["public".to_string()]);
    assert_eq!(
        Directory::convert_directory_flag_into_string(&"--dir=assets".to_string()).as_str(),
        "assets"
    );
}

#[test]
fn default_file_strips_the_flag_or_falls_back() {
    assert_eq!(
        DefaultFile::get_default_file_or_default(&args(&["bin"])).as_str(),
        "403.html"
    );
    let flagged = args(&["bin", "--default-file-path=home.html"]);
    assert_eq!(
        DefaultFile::find_default_file_arguments(&flagged),
        vec!["--default-file-path=home.html".to_string()]
    );
    assert_eq!(
        DefaultFile::get_default_file_or_default(&flagged).as_str(),
        "home.html"
    );
}

#[test]
fn error_messages_become_json_bodies() {
    let error = ConnectionError::new("boom".to_string());
    assert_eq!(error.get_error_as_json_string().as_str(), "{\"error\":\"boom\"}");
    let quoted = ConnectionError::new("say \"hi\"\\".to_string());
    assert_eq!(
        quoted.get_error_as_json_string().as_str(),
        "{\"error\":\"say \\\"hi\\\"\\\\\"}"
    );
}
