use fuzzysearch::telemetry::{environment_name, log_format, LogFormat};
use fuzzysearch::error::Error;
use fuzzysearch::error::{handle_rejection, Rejection};
use fuzzysearch::quota::admission;
use fuzzysearch::upload::{gated_image, image_of, image_part, BrokenForm, Part};

fn part(name: &str, data: &[u8]) -> Part {
    Part { name: String::from(name), data: data.to_vec() }
}

#[test]
fn image_part_is_found_by_name() {
    let parts = vec![part("comment", b"hello"), part("image", &[1, 2, 3]), part("other", &[9])];
    assert_eq!(image_part(parts), Some(vec![1, 2, 3]));
}

#[test]
fn last_image_part_counts() {
    let parts = vec![part("image", &[1]), part("note", &[2]), part("image", &[3]), part("x", &[4])];
    assert_eq!(image_part(parts), Some(vec![3]));
}

#[test]
fn form_without_image_part() {
    assert_eq!(image_part(Vec::new()), None);
    assert_eq!(image_part(vec![part("Image", &[1]), part("images", &[2]), part("", &[3])]), None);
}

#[test]
fn empty_image_part_is_still_the_part() {
    assert_eq!(image_part(vec![part("image", &[])]), Some(Vec::new()));
}

#[test]
fn environment_is_the_configured_one_or_the_build() {
    assert_eq!(environment_name(Some(String::from("staging")), true), "staging");
    assert_eq!(environment_name(Some(String::from("staging")), false), "staging");
    assert_eq!(environment_name(Some(String::new()), false), "");
    assert_eq!(environment_name(None, true), "debug");
    assert_eq!(environment_name(None, false), "release");
}

#[test]
fn log_format_is_json_only_when_asked() {
    assert_eq!(log_format(Some(String::from("json"))), LogFormat::Json);
    assert_eq!(log_format(Some(String::from("JSON"))), LogFormat::Plain);
    assert_eq!(log_format(Some(String::from("text"))), LogFormat::Plain);
    assert_eq!(log_format(Some(String::new())), LogFormat::Plain);
    assert_eq!(log_format(None), LogFormat::Plain);
}

#[test]
fn image_of_a_form() {
    let parts = vec![part("image", &[1]), part("note", &[2]), part("image", &[3])];
    assert_eq!(image_of(Ok(parts)), Ok(vec![3]));
    assert_eq!(image_of(Ok(vec![part("image", &[])])), Ok(Vec::new()));
}

#[test]
fn form_without_image_is_refused() {
    assert_eq!(image_of(Ok(Vec::new())), Err(Error::InvalidData));
    assert_eq!(image_of(Ok(vec![part("picture", &[1])])), Err(Error::InvalidData));
}

#[test]
fn broken_form_is_refused() {
    assert_eq!(image_of(Err(BrokenForm)), Err(Error::InvalidData));
}

#[test]
fn refused_upload_is_not_looked_at() {
    let image = || Ok(vec![part("image", &[1, 2, 3])]);
    assert_eq!(gated_image(Err(Error::RateLimit), image()), Err(Error::RateLimit));
    assert_eq!(gated_image(Err(Error::ApiKey), image()), Err(Error::ApiKey));
    assert_eq!(gated_image(Err(Error::QuotaStore), Err(BrokenForm)), Err(Error::QuotaStore));
    assert_eq!(gated_image(Err(Error::RateLimit), Ok(Vec::new())), Err(Error::RateLimit));
}

#[test]
fn admitted_upload_gives_its_image() {
    assert_eq!(gated_image(Ok(1), Ok(vec![part("image", &[1, 2, 3])])), Ok(vec![1, 2, 3]));
    assert_eq!(gated_image(Ok(1), Ok(Vec::new())), Err(Error::InvalidData));
    assert_eq!(gated_image(Ok(1), Err(BrokenForm)), Err(Error::InvalidData));
}

#[test]
fn the_upload_after_the_last_admitted_one_is_refused_undecoded() {
    let limit: i16 = 3;
    for count in 1..=limit {
        let gate = admission(Ok(count), limit);
        assert_eq!(gated_image(gate, Ok(vec![part("image", &[9])])), Ok(vec![9]));
    }
    let refused = gated_image(admission(Ok(limit + 1), limit), Ok(vec![part("image", &[9])]));
    assert_eq!(refused, Err(Error::RateLimit));
    assert_eq!(handle_rejection(Rejection::Failed(refused.unwrap_err())).code, 429);
}
