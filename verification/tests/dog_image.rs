//! The decisions behind fetching a picture.
use coursework::dog_image::{
    check_parsed, check_response, image_filename, random_image_url, DogImage, DownloadStep,
    FetchError,
};
use coursework::text::{decimal_string, variant_with_field, variant_with_string};

#[test]
fn only_status_200_is_parsed() {
    assert_eq!(check_response(Ok((200, "body"))).unwrap(), "body");
    match check_response(Ok((204, "body"))) {
        Err(FetchError::Api(text)) => assert_eq!(text, "HTTP error: 204"),
        _ => panic!("an api error was expected"),
    }
    match check_response::<u8>(Err("no route".to_string())) {
        Err(FetchError::Network(text)) => assert_eq!(text, "Request failed: no route"),
        _ => panic!("a network error was expected"),
    }
}

#[test]
fn parsed_answers_pass_through() {
    let image = DogImage {
        message: "https://images.dog.ceo/breeds/pug/1.jpg".to_string(),
        status: "success".to_string(),
    };
    let image = check_parsed(Ok(image)).unwrap();
    assert_eq!(image.message, "https://images.dog.ceo/breeds/pug/1.jpg");
    assert_eq!(image.status, "success");
    match check_parsed(Err("eof".to_string())) {
        Err(FetchError::Parse(text)) => assert_eq!(text, "Failed to parse JSON: eof"),
        _ => panic!("a parse error was expected"),
    }
}

#[test]
fn downloads_go_step_by_step() {
    let mut steps = vec![DownloadStep::Fetch];
    let mut step = DownloadStep::Fetch;
    while let Some(next) = step.advance(Ok(())).unwrap() {
        steps.push(next);
        step = next;
    }
    assert_eq!(
        steps,
        vec![
            DownloadStep::Fetch,
            DownloadStep::Read,
            DownloadStep::Create,
            DownloadStep::Write,
        ]
    );
}

#[test]
fn each_step_fails_in_its_own_way() {
    let expected = [
        (DownloadStep::Fetch, "Download(\"Failed to fetch image: x\")"),
        (DownloadStep::Read, "Download(\"Failed to read bytes: x\")"),
        (DownloadStep::Create, "Save(\"Failed to create file: x\")"),
        (DownloadStep::Write, "Save(\"Failed to write file: x\")"),
    ];
    for (step, text) in expected {
        let error = step.advance(Err("x".to_string())).unwrap_err();
        assert_eq!(format!("{:?}", error), text);
    }
}

#[test]
fn names_and_addresses() {
    assert_eq!(random_image_url(), "https://dog.ceo/api/breeds/image/random");
    assert_eq!(image_filename(1), "dog_image_1.jpg");
    assert_eq!(image_filename(50), "dog_image_50.jpg");
    assert_ne!(image_filename(1), image_filename(11));
}

#[test]
fn numbers_in_decimal() {
    for n in [0, 7, 9, 10, 99, 100, 1020304050, u64::MAX] {
        assert_eq!(decimal_string(n), format!("{}", n));
    }
}

#[test]
fn variants_in_debug_form() {
    assert_eq!(variant_with_field("Some", "3"), "Some(3)");
    assert_eq!(variant_with_string("Some", "a\"b"), "Some(\"a\\\"b\")");
}
