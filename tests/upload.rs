use file_uploader::config::{
    max_file_size_from, read_conf, ConfEntries, Config, DEFAULT_MAX_FILE_SIZE,
};
use file_uploader::form_data::{FieldData, FieldInfo, FileField, ParamterField};
use file_uploader::upload::{
    assemble, commit_reply, destination_path, plan_commit, upload, validate, Rejection,
    UploadPlan, UploadRequest,
};

fn param(key: &str, value: &str) -> FieldInfo {
    FieldInfo {
        data: FieldData::Paramter(ParamterField { value: String::from(value) }),
        key: String::from(key),
    }
}

fn file(key: &str, name: &str, temp: &str) -> FieldInfo {
    FieldInfo {
        data: FieldData::File(FileField {
            file_name: String::from(name),
            temp_file: String::from(temp),
        }),
        key: String::from(key),
    }
}

fn conf_in(dir: &str) -> Config {
    let mut c = Config::default();
    c.path = String::from(dir);
    c
}

fn reply_of(plan: UploadPlan) -> String {
    match plan {
        UploadPlan::Reply(m) => m,
        UploadPlan::Commit { .. } => panic!("expected a reply"),
    }
}

#[test]
fn missing_password_with_file() {
    let plan = upload(vec![file("file", "a.txt", "t")], &conf_in("up"));
    assert_eq!(reply_of(plan), "please enter a password");
}

#[test]
fn missing_password_and_file() {
    let plan = upload(vec![param("other", "x")], &conf_in("up"));
    assert_eq!(reply_of(plan), "please select a file");
}

#[test]
fn wrong_password_without_file() {
    let plan = upload(vec![param("pwd", "wrong")], &conf_in("up"));
    assert_eq!(reply_of(plan), "please select a file");
}

#[test]
fn wrong_password_with_file() {
    let plan = upload(
        vec![param("pwd", "wrong"), file("file", "report.pdf", "scratch.tmp")],
        &conf_in("upload_dir"),
    );
    assert_eq!(reply_of(plan), "incorrect password");
}

#[test]
fn accepted_upload_commits() {
    let plan = upload(
        vec![file("file", "report.pdf", "scratch.tmp"), param("pwd", "123456")],
        &conf_in("upload_dir"),
    );
    match plan {
        UploadPlan::Commit { temp_file, destination } => {
            assert_eq!(temp_file, "scratch.tmp");
            assert_eq!(destination, "upload_dir/report.pdf");
        }
        UploadPlan::Reply(m) => panic!("unexpected reply {}", m),
    }
    assert_eq!(commit_reply(Ok(())), "upload succeeded");
}

#[test]
fn file_key_holding_a_parameter() {
    let plan = upload(vec![param("pwd", "123456"), param("file", "report.pdf")], &conf_in("d"));
    assert_eq!(reply_of(plan), "please select a file");
}

#[test]
fn reupload_same_name() {
    for temp in ["one.tmp", "two.tmp"] {
        let plan = upload(
            vec![param("pwd", "123456"), file("file", "same.bin", temp)],
            &conf_in("d/"),
        );
        match plan {
            UploadPlan::Commit { temp_file, destination } => {
                assert_eq!(temp_file, temp);
                assert_eq!(destination, "d/same.bin");
            }
            UploadPlan::Reply(m) => panic!("unexpected reply {}", m),
        }
    }
}

#[test]
fn later_field_wins() {
    let req = assemble(vec![
        param("pwd", "bad"),
        file("file", "a", "t"),
        param("pwd", "123456"),
    ]);
    match req.get(&String::from("pwd")) {
        Some(FieldData::Paramter(p)) => assert_eq!(p.value, "123456"),
        _ => panic!("expected the later pwd"),
    }
    assert!(req.get(&String::from("missing")).is_none());
    let v = validate(&req, &String::from("123456")).unwrap();
    assert_eq!(v.file_name, "a");
}

#[test]
fn request_insert_replaces() {
    let mut req = UploadRequest::new();
    req.insert(param("k", "1"));
    req.insert(param("k", "2"));
    match req.get(&String::from("k")) {
        Some(FieldData::Paramter(p)) => assert_eq!(p.value, "2"),
        _ => panic!("expected k"),
    }
}

#[test]
fn rejection_texts() {
    assert_eq!(Rejection::EnterPassword.message(), "please enter a password");
    assert_eq!(Rejection::IncorrectPassword.message(), "incorrect password");
    assert_eq!(Rejection::SelectFile.message(), "please select a file");
    assert_eq!(reply_of(plan_commit(Err(Rejection::SelectFile), &String::from("d"))), "please select a file");
}

#[test]
fn destination_paths() {
    let n = String::from("a.txt");
    assert_eq!(destination_path(&String::from("uploads"), &n), "uploads/a.txt");
    assert_eq!(destination_path(&String::from("uploads/"), &n), "uploads/a.txt");
    assert_eq!(destination_path(&String::new(), &n), "a.txt");
    assert_eq!(destination_path(&String::from("./"), &n), "./a.txt");
}

#[test]
fn copy_failure_reply() {
    assert_eq!(commit_reply(Err(String::from("denied"))), "file copy failed: denied");
}

#[test]
fn default_settings() {
    let c = Config::default();
    assert_eq!(c.port, "5051");
    assert_eq!(c.path, "./");
    assert_eq!(c.max_file_size, 10 * 1024 * 1024);
    assert_eq!(c.pwd, "123456");
    assert_eq!(c.uri, "/file_uploader");
}

#[test]
fn settings_without_file() {
    let c = read_conf(None, String::from("/srv"));
    assert_eq!(c.path, "./");
    assert_eq!(c.pwd, "123456");
}

#[test]
fn settings_from_file() {
    let e = ConfEntries {
        port: Some(String::from("8080")),
        path: None,
        max_file_size: Some(String::from("5")),
        pwd: Some(String::from("s3")),
        uri: None,
    };
    let c = read_conf(Some(e), String::from("/srv"));
    assert_eq!(c.port, "8080");
    assert_eq!(c.path, "/srv");
    assert_eq!(c.max_file_size, 5 * 1024 * 1024);
    assert_eq!(c.pwd, "s3");
    assert_eq!(c.uri, "/file_uploader");
}

#[test]
fn max_file_size_settings() {
    assert_eq!(max_file_size_from(&String::from("+3")), 3 * 1024 * 1024);
    assert_eq!(max_file_size_from(&String::from("0")), 0);
    assert_eq!(max_file_size_from(&String::from("abc")), DEFAULT_MAX_FILE_SIZE);
    assert_eq!(max_file_size_from(&String::from("")), DEFAULT_MAX_FILE_SIZE);
    assert_eq!(max_file_size_from(&String::from("-1")), DEFAULT_MAX_FILE_SIZE);
    assert_eq!(max_file_size_from(&usize::MAX.to_string()), DEFAULT_MAX_FILE_SIZE);
}
