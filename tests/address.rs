use teletext::page::{TelePage, TelePager};
use teletext::yle_image::YleImage;
use teletext::yle_text::TeleText;

#[test]
fn url_path_form_pads_both_numbers() {
    assert_eq!(TelePage::new(100, 1).to_url_path_form(), "100_0001.htm");
    assert_eq!(TelePage::new(5, 23).to_url_path_form(), "005_0023.htm");
    assert_eq!(TelePage::new(-5, 1).to_url_path_form(), "-05_0001.htm");
}

#[test]
fn api_query_form_pads_the_sub_page_only() {
    assert_eq!(TelePage::new(100, 1).to_api_query_form(), "100_0001");
    assert_eq!(TelePage::new(5, 3).to_api_query_form(), "5_0003");
}

#[test]
fn url_path_form_round_trips() {
    for (page, sub) in [(0, 0), (5, 1), (100, 1), (898, 3), (999, 9999)] {
        let addr = TelePage::new(page, sub);
        assert_eq!(TelePage::from_url_path_form(&addr.to_url_path_form()), Some(addr));
    }
}

#[test]
fn from_url_path_form_reads_by_position() {
    assert_eq!(TelePage::from_url_path_form("102_0003.htm"), Some(TelePage::new(102, 3)));
    assert_eq!(TelePage::from_url_path_form("102x0003"), Some(TelePage::new(102, 3)));
    assert_eq!(TelePage::from_url_path_form("+12_0003"), Some(TelePage::new(12, 3)));
    assert_eq!(TelePage::from_url_path_form("-12_0003"), Some(TelePage::new(-12, 3)));
}

#[test]
fn from_url_path_form_rejects_malformed_numbers() {
    assert_eq!(TelePage::from_url_path_form("abc_0001.htm"), None);
    assert_eq!(TelePage::from_url_path_form("100_00x1.htm"), None);
    assert_eq!(TelePage::from_url_path_form("100_001"), None);
    assert_eq!(TelePage::from_url_path_form(""), None);
    assert_eq!(TelePage::from_url_path_form("+__0001"), None);
}

#[test]
fn text_pages_address_by_file_name() {
    let page = TelePage::new(235, 2);
    assert_eq!(TeleText::to_page_str(&page), "235_0002.htm");
    assert_eq!(TeleText::to_full_page(&page), "https://yle.fi/tekstitv/txt/235_0002.htm");
    assert_eq!(TeleText::from_page_str("235_0002.htm"), Some(page));
}

#[test]
fn image_pages_address_by_query() {
    let page = TelePage::new(235, 2);
    assert_eq!(YleImage::to_page_str(&page), "235_0002");
    assert_eq!(YleImage::to_full_page(&page), "https://yle.fi/aihe/yle-ttv/json?P=235_0002");
    assert_eq!(YleImage::from_page_str("235_0002"), Some(page));
}

#[test]
fn image_query_form_round_trips() {
    for (page, sub) in [(0, 0), (5, 1), (42, 1), (100, 1), (999, 9999)] {
        let addr = TelePage::new(page, sub);
        assert_eq!(YleImage::from_page_str(&YleImage::to_page_str(&addr)), Some(addr));
    }
}

#[test]
fn image_query_form_rejects_malformed_text() {
    assert_eq!(TelePage::from_api_query_form("42_0001"), Some(TelePage::new(42, 1)));
    assert_eq!(TelePage::from_api_query_form("42_001"), None);
    assert_eq!(TelePage::from_api_query_form("12345_0001"), None);
    assert_eq!(TelePage::from_api_query_form("_0001"), None);
    assert_eq!(TelePage::from_api_query_form("4x_0001"), None);
    assert_eq!(TelePage::from_api_query_form("420001"), None);
}
