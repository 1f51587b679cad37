use teletext::cursor::{ParseErr, ParseState};
use teletext::yle_image::{
    IJData, IJDataContent, IJDataInfo, IJDataInfoPage, IJDataPage, IJMeta, ImageJson, YleImage,
};

const PNG_SIGNATURE: [u8; 8] = [0x89, 0x50, 0x4E, 0x47, 0x0D, 0x0A, 0x1A, 0x0A];

const IMAGE: &str = "<img src=\"data:image/png;base64,iVBORw0KGgo=\" alt=\"\" />";

const PAGINATION: &str = "<span class=\"hidden\"></span>\
<a data-yle-ttv-page-name=\"101_0001\" href=\"?P=101\"><span>101</span> Seuraava</a>\
<div class=\"input\"><form>100</form></div>\
<a data-yle-ttv-page-name=\"099_0001\" href=\"?P=99\">Edellinen &amp; <span> 99 </span></a>";

fn record(label: &str, image: &str, pagination: &str) -> IJData {
    IJData {
        page: IJDataPage { page: "100".to_string(), subpage: "1".to_string() },
        info: IJDataInfo {
            page: IJDataInfoPage {
                number: "100".to_string(),
                name: "100_0001".to_string(),
                label: label.to_string(),
                href: "?P=100#1".to_string(),
            },
            aspect_ratio: "4:3".to_string(),
        },
        content: IJDataContent {
            text: String::new(),
            image: image.to_string(),
            image_map: String::new(),
            pagination: pagination.to_string(),
        },
    }
}

fn envelope(data: Vec<IJData>) -> ImageJson {
    ImageJson { meta: IJMeta { code: "200".to_string() }, data }
}

#[test]
fn image_page_from_first_record() {
    let json = envelope(vec![record("100/1", IMAGE, PAGINATION), record("x", "", "<b>")]);
    let page = YleImage::new().parse_envelope(json).unwrap();
    assert_eq!(page.title, "100/1");
    assert_eq!(page.image, PNG_SIGNATURE.to_vec());
    let nav = &page.botton_navigation;
    assert_eq!(nav.len(), 3);
    assert!(nav[0].is_none());
    let next = nav[1].as_ref().unwrap();
    assert_eq!(next.url, "101_0001");
    assert_eq!(next.inner_text, "101 Seuraava");
    let prev = nav[2].as_ref().unwrap();
    assert_eq!(prev.url, "099_0001");
    assert_eq!(prev.inner_text, "Edellinen & 99");
}

#[test]
fn empty_envelope_is_invalid() {
    let err = YleImage::new().parse_envelope(envelope(Vec::new())).unwrap_err();
    assert_eq!(err, ParseErr::InvalidEnvelope);
}

#[test]
fn bad_base64_is_invalid_image_data() {
    let image = "<img src=\"data:image/png;base64,!!!notbase64\" />";
    let json = envelope(vec![record("100/1", image, PAGINATION)]);
    let err = YleImage::new().parse_envelope(json).unwrap_err();
    assert_eq!(err, ParseErr::InvalidImageData);
}

#[test]
fn missing_image_marker_is_malformed() {
    let json = envelope(vec![record("100/1", "<img src=\"x.png\" />", PAGINATION)]);
    let err = YleImage::new().parse_envelope(json).unwrap_err();
    assert_eq!(err, ParseErr::MalformedDocument);
}

#[test]
fn unknown_pagination_tag_is_malformed() {
    let json = envelope(vec![record("100/1", IMAGE, "<b>bold</b>")]);
    let err = YleImage::new().parse_envelope(json).unwrap_err();
    assert_eq!(err, ParseErr::MalformedDocument);
}

#[test]
fn empty_pagination_has_no_slots() {
    let json = envelope(vec![record("100/1", IMAGE, "")]);
    let page = YleImage::new().parse_envelope(json).unwrap();
    assert!(page.botton_navigation.is_empty());
}

#[test]
fn image_decodes_base64_run() {
    let mut state = ParseState::new("data:image/png;base64,aGk=\"");
    assert_eq!(YleImage::parse_image(&mut state).unwrap(), b"hi".to_vec());
}

#[test]
fn nav_link_label_with_span_first() {
    let mut state = ParseState::new("a data-yle-ttv-page-name=\"200_0001\"><span> 200 </span>  Urheilu </a>x");
    let link = YleImage::parse_bottom_nav_link(&mut state).unwrap();
    assert_eq!(link.url, "200_0001");
    assert_eq!(link.inner_text, "200 Urheilu");
}

#[test]
fn nav_link_label_trims_unicode_white_space() {
    let mut state = ParseState::new("a data-yle-ttv-page-name=\"300_0001\">\u{a0}Sää&nbsp;<span>\u{3000}300 </span></a>");
    let link = YleImage::parse_bottom_nav_link(&mut state).unwrap();
    assert_eq!(link.inner_text, "Sää 300");
}
