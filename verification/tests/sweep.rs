use gcs_cromwell_cleaner::lister::{ListRequest, ListingPage, ObjectLister};
use gcs_cromwell_cleaner::locator::{parse_gsutil_path, GsPath, InvalidLocator};
use gcs_cromwell_cleaner::object::{DeleteRequest, ObjectRef};
use gcs_cromwell_cleaner::removal::PageAction;
use gcs_cromwell_cleaner::sweep::{Command, Event, Sweep, SweepError};

const SCRIPT: &str = "runs/b189154b-fd26-4ed1-a6f0-4f6191f1e820/call-foobar/shard-42/script";
const RC: &str = "runs/b189154b-fd26-4ed1-a6f0-4f6191f1e820/call-foobar/shard-42/rc";
const BAM: &str = "runs/b189154b-fd26-4ed1-a6f0-4f6191f1e820/call-foobar/shard-42/out.bam";

fn locator() -> GsPath {
    GsPath { bucket: "my-bucket".to_string(), folder: "runs/".to_string() }
}

fn list(token: Option<&str>) -> ListRequest {
    ListRequest {
        bucket: "my-bucket".to_string(),
        prefix: "runs/".to_string(),
        page_token: token.map(|t| t.to_string()),
    }
}

fn page(names: &[&str], token: Option<&str>) -> ListingPage {
    ListingPage {
        items: Some(
            names
                .iter()
                .map(|n| ObjectRef { bucket: "my-bucket".to_string(), name: n.to_string() })
                .collect(),
        ),
        next_page_token: token.map(|t| t.to_string()),
    }
}

fn request(name: &str) -> DeleteRequest {
    DeleteRequest { bucket: "my-bucket".to_string(), object: name.to_string() }
}

#[test]
fn lister_visits_every_page_once() {
    let mut lister = ObjectLister::new(locator());
    assert_eq!(lister.bucket(), "my-bucket");
    assert_eq!(lister.locator(), locator());
    let tokens = [Some("t1"), Some("t2"), Some("t3"), None];
    let mut asked = Vec::new();
    for token in tokens {
        assert!(!lister.is_exhausted());
        asked.push(lister.next_request().unwrap());
        lister.advance(token.map(|t| t.to_string()));
    }
    assert_eq!(asked, vec![list(None), list(Some("t1")), list(Some("t2")), list(Some("t3"))]);
    assert!(lister.is_exhausted());
    assert_eq!(lister.next_request(), None);
}

#[test]
fn lister_of_a_single_page() {
    let mut lister = ObjectLister::new(locator());
    assert_eq!(lister.next_request(), Some(list(None)));
    // asking twice does not move the lister
    assert_eq!(lister.next_request(), Some(list(None)));
    lister.advance(None);
    assert!(lister.is_exhausted());
    assert_eq!(lister.next_request(), None);
}

#[test]
fn exhausted_lister_stays_exhausted() {
    let mut lister = ObjectLister::new(locator());
    lister.advance(None);
    lister.advance(Some("late".to_string()));
    assert!(lister.is_exhausted());
    assert_eq!(lister.next_request(), None);
}

#[test]
fn sweep_begins_with_the_bucket_check() {
    let sweep = Sweep::begin("gs://my-bucket/runs/", false).unwrap();
    assert!(!sweep.is_dry_run());
    assert_eq!(sweep.locator(), locator());
    assert_eq!(sweep.command(), Command::CheckBucket("my-bucket".to_string()));
    let sweep = Sweep::new(parse_gsutil_path("gs://my-bucket/runs/").unwrap(), true);
    assert!(sweep.is_dry_run());
    assert_eq!(sweep.command(), Command::CheckBucket("my-bucket".to_string()));
}

#[test]
fn sweep_needs_a_locator() {
    assert_eq!(Sweep::begin("my-bucket/runs/", false).err(), Some(InvalidLocator::MissingScheme));
    assert_eq!(Sweep::begin("gs://my-bucket", true).err(), Some(InvalidLocator::MissingFolder));
    assert_eq!(Sweep::begin("gs://my-bucket/", true).err(), Some(InvalidLocator::MissingFolder));
    assert_eq!(Sweep::begin("gs:///runs/", false).err(), Some(InvalidLocator::MissingBucket));
}

#[test]
fn sweep_deletes_page_by_page() {
    let mut sweep = Sweep::new(locator(), false);
    assert_eq!(sweep.step(Event::BucketFound), None);
    assert_eq!(sweep.command(), Command::ListObjects(list(None)));

    let work = sweep.step(Event::PageListed(page(&[SCRIPT, BAM], Some("t1"))));
    assert_eq!(work, Some(PageAction::Delete(vec![request(SCRIPT)])));
    assert_eq!(sweep.command(), Command::ListObjects(list(Some("t1"))));

    // a page without items goes on where it carries a token
    let work = sweep.step(Event::PageListed(page(&[], Some("t2"))));
    assert_eq!(work, Some(PageAction::Delete(Vec::new())));
    assert_eq!(sweep.command(), Command::ListObjects(list(Some("t2"))));

    let work = sweep.step(Event::PageListed(ListingPage {
        items: None,
        next_page_token: Some("t3".to_string()),
    }));
    assert_eq!(work, Some(PageAction::Delete(Vec::new())));
    assert_eq!(sweep.command(), Command::ListObjects(list(Some("t3"))));

    let work = sweep.step(Event::PageListed(page(&[BAM, RC, SCRIPT], None)));
    assert_eq!(work, Some(PageAction::Delete(vec![request(RC), request(SCRIPT)])));
    assert_eq!(sweep.command(), Command::Finish);
}

#[test]
fn dry_run_sweep_never_deletes() {
    let mut sweep = Sweep::new(locator(), true);
    sweep.step(Event::BucketFound);
    let work = sweep.step(Event::PageListed(page(&[SCRIPT, BAM, RC], Some("t1"))));
    assert_eq!(
        work,
        Some(PageAction::Report(vec![
            format!("gs://my-bucket/{}", SCRIPT),
            format!("gs://my-bucket/{}", RC),
        ]))
    );
    let work = sweep.step(Event::PageListed(page(&[RC], None)));
    assert_eq!(work, Some(PageAction::Report(vec![format!("gs://my-bucket/{}", RC)])));
    assert_eq!(sweep.command(), Command::Finish);
}

#[test]
fn missing_bucket_ends_the_sweep() {
    let mut sweep = Sweep::new(locator(), false);
    assert_eq!(sweep.step(Event::BucketMissing), None);
    assert_eq!(sweep.command(), Command::Abort(SweepError::BucketNotFound));
    // nothing brings it back
    assert_eq!(sweep.step(Event::BucketFound), None);
    assert_eq!(sweep.step(Event::PageListed(page(&[SCRIPT], None))), None);
    assert_eq!(sweep.command(), Command::Abort(SweepError::BucketNotFound));
}

#[test]
fn failed_listing_ends_the_sweep() {
    let mut sweep = Sweep::new(locator(), false);
    sweep.step(Event::BucketFound);
    sweep.step(Event::PageListed(page(&[SCRIPT], Some("t1"))));
    assert_eq!(sweep.step(Event::ListingFailed), None);
    assert_eq!(sweep.command(), Command::Abort(SweepError::BackendUnavailable));
    assert_eq!(sweep.step(Event::PageListed(page(&[SCRIPT], None))), None);
    assert_eq!(sweep.command(), Command::Abort(SweepError::BackendUnavailable));
}

#[test]
fn events_out_of_turn_change_nothing() {
    let mut sweep = Sweep::new(locator(), false);
    // no page is awaited before the bucket is known
    assert_eq!(sweep.step(Event::PageListed(page(&[SCRIPT], None))), None);
    assert_eq!(sweep.step(Event::ListingFailed), None);
    assert_eq!(sweep.command(), Command::CheckBucket("my-bucket".to_string()));

    sweep.step(Event::BucketFound);
    assert_eq!(sweep.step(Event::BucketMissing), None);
    assert_eq!(sweep.command(), Command::ListObjects(list(None)));

    sweep.step(Event::PageListed(page(&[], None)));
    assert_eq!(sweep.command(), Command::Finish);
    // the sweep is over: a late page leads to no work
    assert_eq!(sweep.step(Event::PageListed(page(&[SCRIPT], Some("t9")))), None);
    assert_eq!(sweep.step(Event::ListingFailed), None);
    assert_eq!(sweep.command(), Command::Finish);
}

#[test]
fn sweep_messages() {
    assert_eq!(
        SweepError::BucketNotFound.message(),
        "Bucket check failed: the bucket could not be found"
    );
    assert_eq!(
        SweepError::BackendUnavailable.message(),
        "Listing failed: the objects could not be listed"
    );
}
