use gcs_cromwell_cleaner::object::{DeleteRequest, ObjectRef};
use gcs_cromwell_cleaner::removal::{
    failure_line, filter_objects, handle_removal, remove_objects, report_line_of,
    DeletionOutcome, PageAction,
};

fn object(bucket: &str, name: &str) -> ObjectRef {
    ObjectRef { bucket: bucket.to_string(), name: name.to_string() }
}

fn request(bucket: &str, name: &str) -> DeleteRequest {
    DeleteRequest { bucket: bucket.to_string(), object: name.to_string() }
}

const SCRIPT: &str = "my_folder/b189154b-fd26-4ed1-a6f0-4f6191f1e820/call-foobar/shard-42/script";
const STDERR: &str = "my_folder/b189154b-fd26-4ed1-a6f0-4f6191f1e820/call-foobar/shard-42/stderr";
const BAM: &str =
    "my_folder/b189154b-fd26-4ed1-a6f0-4f6191f1e820/call-foobar/shard-42/my_fake_other_file.bam";

#[test]
fn test_filter_objects() {
    let items = vec![
        ObjectRef {
            bucket: "my-bucket".to_string(),
            name: "my_folder/b189154b-fd26-4ed1-a6f0-4f6191f1e820/call-foobar/shard-42/script"
                .to_string(),
        },
        ObjectRef {
            bucket: "my-bucket".to_string(),
            name: "my_folder/b189154b-fd26-4ed1-a6f0-4f6191f1e820/call-foobar/shard-42/\
                   my_fake_other_file.bam"
                .to_string(),
        },
    ];

    let filtered_items = filter_objects(items);
    assert_eq!(filtered_items.len(), 1);
    assert_eq!(
        filtered_items[0].name,
        "my_folder/b189154b-fd26-4ed1-a6f0-4f6191f1e820/call-foobar/shard-42/script".to_string()
    );

    let items = vec![
        ObjectRef {
            bucket: "my-bucket".to_string(),
            name: "my_folder/call-foobar/shard-42/script".to_string(),
        },
        ObjectRef {
            bucket: "my-bucket".to_string(),
            name: "my_folder/call-foobar/shard-42/my_fake_other_file.bam".to_string(),
        },
    ];

    let filtered_items = filter_objects(items);
    assert_eq!(filtered_items.len(), 0);
}

#[test]
fn filter_keeps_matches_in_order() {
    let items = vec![
        object("b1", STDERR),
        object("b1", BAM),
        object("b2", SCRIPT),
        object("b1", "other"),
        object("b3", STDERR),
    ];
    assert_eq!(
        filter_objects(items),
        vec![object("b1", STDERR), object("b2", SCRIPT), object("b3", STDERR)]
    );
    assert_eq!(filter_objects(Vec::new()), Vec::new());
}

#[test]
fn every_object_of_a_batch_gets_a_request() {
    let items = vec![object("b1", "x"), object("b2", "y/z"), object("b1", "x")];
    assert_eq!(
        remove_objects(items),
        vec![request("b1", "x"), request("b2", "y/z"), request("b1", "x")]
    );
    assert_eq!(remove_objects(Vec::new()), Vec::new());
}

#[test]
fn report_line_is_the_locator() {
    assert_eq!(report_line_of(&object("my-bucket", SCRIPT)), format!("gs://my-bucket/{}", SCRIPT));
    assert_eq!(report_line_of(&object("b", "")), "gs://b/");
    assert_eq!(report_line_of(&object("", "n")), "gs:///n");
}

#[test]
fn dry_run_reports_and_deletes_nothing() {
    let items = vec![object("my-bucket", SCRIPT), object("my-bucket", BAM), object("my-bucket", STDERR)];
    let action = handle_removal(Some(items), true);
    assert_eq!(
        action,
        PageAction::Report(vec![
            format!("gs://my-bucket/{}", SCRIPT),
            format!("gs://my-bucket/{}", STDERR),
        ])
    );
}

#[test]
fn real_run_deletes_the_matches() {
    let items = vec![object("my-bucket", SCRIPT), object("my-bucket", BAM), object("my-bucket", STDERR)];
    let action = handle_removal(Some(items), false);
    assert_eq!(
        action,
        PageAction::Delete(vec![request("my-bucket", SCRIPT), request("my-bucket", STDERR)])
    );
}

#[test]
fn page_without_items_leads_to_nothing() {
    assert_eq!(handle_removal(None, true), PageAction::Report(Vec::new()));
    assert_eq!(handle_removal(None, false), PageAction::Delete(Vec::new()));
    assert_eq!(handle_removal(Some(Vec::new()), true), PageAction::Report(Vec::new()));
    assert_eq!(handle_removal(Some(Vec::new()), false), PageAction::Delete(Vec::new()));
    assert_eq!(
        handle_removal(Some(vec![object("b", BAM)]), false),
        PageAction::Delete(Vec::new())
    );
}

#[test]
fn failure_is_told_with_the_object() {
    let failed = DeletionOutcome {
        request: request("my-bucket", SCRIPT),
        error: Some("403 Forbidden".to_string()),
    };
    assert_eq!(
        failure_line(&failed),
        Some(format!("Error deleting object gs://my-bucket/{}: 403 Forbidden", SCRIPT))
    );
    let empty = DeletionOutcome { request: request("b", "n"), error: Some(String::new()) };
    assert_eq!(failure_line(&empty), Some("Error deleting object gs://b/n: ".to_string()));
}

#[test]
fn success_is_not_logged() {
    let done = DeletionOutcome { request: request("my-bucket", SCRIPT), error: None };
    assert_eq!(failure_line(&done), None);
}

#[test]
fn failures_leave_the_other_outcomes_alone() {
    let requests = remove_objects(vec![object("b", "one"), object("b", "two"), object("b", "three")]);
    assert_eq!(requests.len(), 3);
    let lines: Vec<Option<String>> = requests
        .into_iter()
        .enumerate()
        .map(|(i, request)| {
            let error = if i == 1 { Some("not found".to_string()) } else { None };
            failure_line(&DeletionOutcome { request, error })
        })
        .collect();
    assert_eq!(
        lines,
        vec![None, Some("Error deleting object gs://b/two: not found".to_string()), None]
    );
}

#[test]
fn clones_are_equal() {
    let o = object("b", "n");
    assert_eq!(o.clone(), o);
    let r = request("b", "n");
    assert_eq!(r.clone(), r);
}
