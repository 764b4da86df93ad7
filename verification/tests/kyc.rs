//! Identity submissions: every field checked, images decoded and sniffed.

use lr_engine::Refusal;
use lr_engine::kyc::base64::decode_base64;
use lr_engine::kyc::image::{MAX_IMAGE_BYTES, decode_image};
use lr_engine::kyc::{
    SubmitInput, check_submission, id_type_of, is_valid_stellar_address, required_field,
    review_decision,
};

fn chars(s: &str) -> Vec<char> {
    s.chars().collect()
}

fn wallet() -> String {
    format!("G{}", "A2B3C4D5E6F7".repeat(4)) + "ABCDEFG"
}

fn input() -> SubmitInput {
    SubmitInput {
        id_type: " PhilSys ".to_string(),
        first_name: " Juan ".to_string(),
        middle_name: "".to_string(),
        last_name: "Dela Cruz".to_string(),
        dob: "1990-01-01".to_string(),
        id_number: "1234-5678-9012".to_string(),
        wallet_address: format!(" {} ", wallet()),
        face_match_score: Some(87),
        liveness_passed: true,
        id_image: "data:image/png;base64,iVBORw0KGgoBAgM=".to_string(),
        selfie_image: "/9j/4AAQ".to_string(),
    }
}

fn refused(message: &'static str) -> Result<(), Refusal> {
    Err(Refusal { status: 422, message })
}

#[test]
fn a_stellar_key_is_g_and_fifty_five_base32_characters() {
    let w = wallet();
    assert_eq!(w.len(), 56);
    assert!(is_valid_stellar_address(&w));
    assert!(!is_valid_stellar_address(&w.to_lowercase()));
    assert!(!is_valid_stellar_address(&w[..55]));
    assert!(!is_valid_stellar_address(&format!("S{}", &w[1..])));
    assert!(!is_valid_stellar_address(&format!("{}8", &w[..55])));
    assert!(!is_valid_stellar_address(""));
}

#[test]
fn base64_decodes_whole_groups_with_padding_only_at_the_end() {
    assert_eq!(decode_base64(&chars("aGVsbG8gd29ybGQ=")), Some(b"hello world".to_vec()));
    assert_eq!(decode_base64(&chars("/9j/AQ==")), Some(vec![0xFF, 0xD8, 0xFF, 1]));
    assert_eq!(decode_base64(&chars("/9j/AQI=")), Some(vec![0xFF, 0xD8, 0xFF, 1, 2]));
    assert_eq!(decode_base64(&chars("")), Some(vec![]));
    assert_eq!(decode_base64(&chars("abc")), None);
    assert_eq!(decode_base64(&chars("ab=c")), None);
    assert_eq!(decode_base64(&chars("AA==AAAA")), None);
    assert_eq!(decode_base64(&chars("!!!!")), None);
}

#[test]
fn images_are_sniffed_from_their_first_bytes() {
    let (bytes, ext, mime) = decode_image("data:image/png;base64,iVBORw0KGgoBAgM=").unwrap();
    assert_eq!((bytes.len(), ext, mime), (11, "png", "image/png"));
    let (_, ext, mime) = decode_image("  /9j/4AAQ\n").unwrap();
    assert_eq!((ext, mime), ("jpg", "image/jpeg"));
    // The declared type is ignored: a JPEG under a PNG label is a JPEG.
    let (_, ext, _) = decode_image("data:image/png;base64,/9j/4AAQ").unwrap();
    assert_eq!(ext, "jpg");
    let (_, ext, mime) = decode_image("UklGRiQAAABXRUJQVlA4IA==").unwrap();
    assert_eq!((ext, mime), ("webp", "image/webp"));
    assert_eq!(decode_image("aGVsbG8gd29ybGQ="), Err("Unsupported image format — use JPEG, PNG, or WebP"));
    assert_eq!(decode_image("data:image/png;base64,%%%"), Err("Invalid image encoding"));
}

#[test]
fn an_image_over_eight_megabytes_is_refused() {
    let text = "A".repeat((MAX_IMAGE_BYTES + 3) / 3 * 4);
    assert_eq!(decode_image(&text), Err("Image too large (max 8MB)"));
}

#[test]
fn id_types_match_ignoring_case() {
    assert_eq!(id_type_of("PhilSys"), Some("philsys"));
    assert_eq!(id_type_of("DRIVERS-LICENSE"), Some("drivers-license"));
    assert_eq!(id_type_of("library-card"), None);
}

#[test]
fn required_fields_are_trimmed_and_bounded_in_bytes() {
    assert_eq!(required_field("  Juan ", 100, "Invalid first name").unwrap(), "Juan");
    assert_eq!(required_field("   ", 100, "Invalid first name"), Err(Refusal { status: 422, message: "Invalid first name" }));
    // Two bytes per ñ: ten of them are twenty bytes.
    assert!(required_field(&"ñ".repeat(10), 20, "x").is_ok());
    assert!(required_field(&"ñ".repeat(10), 19, "x").is_err());
}

#[test]
fn a_good_submission_passes_with_everything_trimmed() {
    let checked = check_submission(&input()).unwrap();
    assert_eq!(checked.id_type, "philsys");
    assert_eq!(checked.first_name, "Juan");
    assert_eq!(checked.middle_name, "");
    assert_eq!(checked.wallet_address, wallet());
    assert_eq!((checked.id_ext, checked.selfie_ext), ("png", "jpg"));
    assert_eq!(checked.face_match_score, Some(87));
}

#[test]
fn each_bad_field_is_named() {
    let check = |f: fn(&mut SubmitInput)| {
        let mut p = input();
        f(&mut p);
        check_submission(&p).map(|_| ())
    };
    assert_eq!(check(|p| p.id_type = "library-card".into()), refused("Unknown ID type"));
    assert_eq!(check(|p| p.first_name = "  ".into()), refused("Invalid first name"));
    assert_eq!(check(|p| p.last_name = "x".repeat(101)), refused("Invalid last name"));
    assert_eq!(check(|p| p.middle_name = "x".repeat(101)), refused("Invalid middle name"));
    assert_eq!(check(|p| p.dob = "".into()), refused("Invalid date of birth"));
    assert_eq!(check(|p| p.id_number = "12-3".into()), refused("Invalid ID number"));
    assert_eq!(check(|p| p.wallet_address = "GABC".into()), refused("Invalid wallet address"));
    assert_eq!(check(|p| p.face_match_score = Some(101)), refused("Invalid match score"));
    assert_eq!(check(|p| p.face_match_score = Some(-1)), refused("Invalid match score"));
    assert_eq!(check(|p| p.id_image = "!!!!".into()), refused("Invalid image encoding"));
    assert_eq!(
        check(|p| p.selfie_image = "aGVsbG8gd29ybGQ=".into()),
        refused("Unsupported image format — use JPEG, PNG, or WebP")
    );
}

#[test]
fn a_rejection_needs_a_reason_and_an_approval_does_not() {
    let ok = review_decision("approve", None).unwrap();
    assert!(ok.approve);
    assert_eq!((ok.status, ok.message), ("approved", "Submission approved"));
    let no = review_decision("reject", Some("  blurry photo ")).unwrap();
    assert!(!no.approve);
    assert_eq!(no.reason.as_deref(), Some("blurry photo"));
    assert_eq!((no.status, no.message), ("rejected", "Submission rejected"));
    assert_eq!(review_decision("reject", Some("   ")).map(|_| ()), refused("A rejection needs a reason"));
    assert_eq!(review_decision("maybe", None).map(|_| ()), refused("Unknown decision"));
    assert_eq!(review_decision("reject", Some(&"x".repeat(501))).map(|_| ()), refused("Reason too long"));
}

#[test]
fn a_rejection_reason_shows_only_on_a_rejection() {
    let none = lr_engine::accounts::standing::kyc_status(None);
    assert_eq!((none.status.as_str(), none.submitted_at), ("none", None));
    let rejected = lr_engine::accounts::standing::kyc_status(Some(("rejected".to_string(), 5, Some(9), Some("blurry".to_string()))));
    assert_eq!(rejected.rejection_reason.as_deref(), Some("blurry"));
    assert_eq!(rejected.submitted_at, Some(5));
    let verified = lr_engine::accounts::standing::kyc_status(Some(("verified".to_string(), 5, Some(9), Some("old note".to_string()))));
    assert_eq!(verified.rejection_reason, None);
}
