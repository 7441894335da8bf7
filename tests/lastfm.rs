use ample::lastfm::{
    create_api_sig, create_param_uri, is_error_status, signing_text, AlbumInfo,
    ArtistInfo, ImageInfo, LastFmCreds, TrackInfo, API_ROOT,
};
use ample::params::{key_less, Params};
use ample::text::{decimal_text, hex_digest};

fn pairs(form: &[(String, String)]) -> Vec<(&str, &str)> {
    form.iter().map(|(k, v)| (k.as_str(), v.as_str())).collect()
}

fn creds() -> LastFmCreds {
    LastFmCreds {
        api_key: "K".to_owned(),
        api_secret: "secret".to_owned(),
        session_token: "S".to_owned(),
    }
}

#[test]
fn param_uri() {
    let mut params = Params::new();
    params.insert("method", "juice");
    params.insert("api_key", "apple");
    params.insert("fortnite", "battlePass");

    let uri = create_param_uri(&params, None);
    assert_eq!(
        uri,
        "https://ws.audioscrobbler.com/2.0/?api_key=apple&fortnite=battlePass&method=juice&format=json"
    )
}

#[test]
fn param_uri_encodes_and_appends_signature() {
    let mut params = Params::new();
    params.insert("track", "Hello World");
    params.insert("artist", "AC/DC");
    let uri = create_param_uri(&params, Some("abc123".to_owned()));
    assert_eq!(
        uri,
        format!("{API_ROOT}/?artist=AC%2fDC&track=Hello%20World&api_sig=abc123&format=json")
    );
}

#[test]
fn param_uri_without_params() {
    let params = Params::new();
    assert_eq!(create_param_uri(&params, None), format!("{API_ROOT}/?&format=json"));
}

#[test]
fn signature_ignores_insertion_order() {
    let mut first = Params::new();
    first.insert("b", "2");
    first.insert("a", "1");
    let mut second = Params::new();
    second.insert("a", "1");
    second.insert("b", "2");
    assert_eq!(create_api_sig(&first, "secret"), create_api_sig(&second, "secret"));
    assert_eq!(create_api_sig(&first, "secret"), "670699129dd49818b5abd9e7c2fd6569");
}

#[test]
fn signature_is_md5_of_sorted_pairs_and_secret() {
    let mut params = Params::new();
    params.insert("a", "b");
    assert_eq!(signing_text(&params, "c"), "abc");
    assert_eq!(create_api_sig(&params, "c"), "900150983cd24fb0d6963f7d28e17f72");
    let sig = create_api_sig(&params, "c");
    assert_eq!(sig.len(), 32);
    assert!(sig.chars().all(|c| c.is_ascii_hexdigit() && !c.is_ascii_uppercase()));
}

#[test]
fn signature_hashes_utf8_bytes() {
    let mut params = Params::new();
    params.insert("k\u{e9}y", "\u{20ac}");
    assert_eq!(create_api_sig(&params, "secret"), "a3cc3c0acf85dd5b21d7b8138aa7cf2d");
}

#[test]
fn insert_replaces_earlier_value() {
    let mut params = Params::new();
    params.insert("a", "old");
    params.insert("b", "x");
    params.insert("a", "new");
    let sorted = params.sorted_entries();
    assert_eq!(pairs(&sorted), vec![("a", "new"), ("b", "x")]);
}

#[test]
fn entries_sorted_bytewise() {
    let mut params = Params::new();
    params.insert("b", "1");
    params.insert("B", "2");
    params.insert("ab", "3");
    params.insert("a", "4");
    params.insert("\u{e9}", "5");
    let sorted = params.sorted_entries();
    assert_eq!(
        pairs(&sorted),
        vec![("B", "2"), ("a", "4"), ("ab", "3"), ("b", "1"), ("\u{e9}", "5")]
    );
}

#[test]
fn key_order_is_bytewise() {
    assert!(key_less("a", "b"));
    assert!(key_less("a", "ab"));
    assert!(!key_less("ab", "a"));
    assert!(!key_less("a", "a"));
    assert!(key_less("Z", "a"));
    assert!(key_less("", "a"));
}

#[test]
fn hex_digest_renders_lowercase_pairs() {
    assert_eq!(hex_digest(&[0x00, 0x0f, 0xa0, 0xff]), "000fa0ff");
    assert_eq!(hex_digest(&[]), "");
}

#[test]
fn decimal_rendering() {
    assert_eq!(decimal_text(0), "0");
    assert_eq!(decimal_text(7), "7");
    assert_eq!(decimal_text(1700000000), "1700000000");
    assert_eq!(decimal_text(u64::MAX), "18446744073709551615");
}

#[test]
fn error_status_range() {
    assert!(!is_error_status(200));
    assert!(!is_error_status(399));
    assert!(is_error_status(400));
    assert!(is_error_status(404));
    assert!(is_error_status(599));
    assert!(!is_error_status(600));
}

#[test]
fn now_playing_form_is_signed() {
    let form = creds().now_playing_form("A", "T", None);
    assert_eq!(
        pairs(&form),
        vec![
            ("api_key", "K"),
            ("artist", "A"),
            ("method", "track.updateNowPlaying"),
            ("sk", "S"),
            ("track", "T"),
            ("format", "json"),
            ("api_sig", "29dfdd1114d328009cbd255eb0c36363"),
        ]
    );
}

#[test]
fn scrobble_form_carries_timestamp_and_album() {
    let form = creds().scrobble_form("A", "T", 1700000000, Some("L"));
    assert_eq!(
        pairs(&form),
        vec![
            ("album", "L"),
            ("api_key", "K"),
            ("artist", "A"),
            ("method", "track.scrobble"),
            ("sk", "S"),
            ("timestamp", "1700000000"),
            ("track", "T"),
            ("format", "json"),
            ("api_sig", "e07e665a29f068a12435a5a91b4a1edb"),
        ]
    );
}

#[test]
fn session_request_form_is_signed() {
    let form = ample::lastfm::session_request_form("K", "U", "P", "secret");
    assert_eq!(
        pairs(&form),
        vec![
            ("api_key", "K"),
            ("method", "auth.getMobileSession"),
            ("password", "P"),
            ("username", "U"),
            ("format", "json"),
            ("api_sig", "18af7b526eaad344a43479582db64159"),
        ]
    );
}

#[test]
fn track_info_uri_is_unsigned() {
    let uri = creds().track_info_uri("Daft Punk", "One More Time");
    assert_eq!(
        uri,
        format!(
            "{API_ROOT}/?api_key=K&artist=Daft%20Punk&format=json&method=track.getInfo&track=One%20More%20Time&format=json"
        )
    );
}

fn track_with(images: Vec<(&str, &str)>) -> TrackInfo {
    TrackInfo {
        name: "T".to_owned(),
        artist: ArtistInfo { name: "A".to_owned() },
        album: AlbumInfo {
            artist: "A".to_owned(),
            title: "L".to_owned(),
            images: images
                .into_iter()
                .map(|(size, url)| ImageInfo { size: size.to_owned(), url: url.to_owned() })
                .collect(),
        },
    }
}

#[test]
fn large_image_is_chosen() {
    let track = track_with(vec![
        ("small", "s.png"),
        ("large", "l1.png"),
        ("large", "l2.png"),
    ]);
    assert_eq!(track.large_image_url(), "l1.png");
}

#[test]
fn no_large_image_gives_empty_address() {
    assert_eq!(track_with(vec![("small", "s.png")]).large_image_url(), "");
    assert_eq!(track_with(vec![]).large_image_url(), "");
}
