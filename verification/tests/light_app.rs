use qqbot::msg::elem::LightApp;
use qqbot::pb::msg;
use qqbot::pb::msg::elem::Elem;

#[test]
fn test_compress() {
    let app = LightApp {
        content: "Hello world".to_string(),
    };
    let ele = app.into_elems();
    match &ele[0] {
        Elem::LightApp(app) => {
            assert_eq!(
                app.data,
                Some(vec![
                    1, 120, 156, 243, 72, 205, 201, 201, 87, 40, 207, 47, 202, 73, 1, 0, 24, 171,
                    4, 61
                ])
            );
            assert_eq!(app.msg_resid, None);
        }
        _ => {
            panic!("unreachable");
        }
    }
}

#[test]
fn test_decompress() {
    let data = vec![
        1u8, 120, 156, 243, 72, 205, 201, 201, 87, 40, 207, 47, 202, 73, 1, 0, 24, 171, 4, 61,
    ];
    let elem = msg::LightApp {
        data: Some(data),
        msg_resid: None,
    };
    let app = LightApp::from_pb(elem);
    assert_eq!(app.content, "Hello world");
}

#[test]
fn light_app_stored_raw_after_a_zero() {
    let elem = msg::LightApp { data: Some(vec![0, b'{', b'}']), msg_resid: None };
    assert_eq!(LightApp::from_pb(elem).content, "{}");
}

#[test]
fn light_app_without_data_is_empty() {
    let elem = msg::LightApp { data: None, msg_resid: None };
    assert_eq!(LightApp::from_pb(elem).content, "");
    let one = msg::LightApp { data: Some(vec![1]), msg_resid: None };
    assert_eq!(LightApp::from_pb(one).content, "");
}

#[test]
fn light_app_of_1027_bytes_or_more_is_empty() {
    let mut data = vec![0u8];
    data.extend(std::iter::repeat(b'a').take(1027));
    let elem = msg::LightApp { data: Some(data), msg_resid: None };
    assert_eq!(LightApp::from_pb(elem).content, "");
}

#[test]
fn light_app_that_does_not_decompress_is_refused() {
    let elem = msg::LightApp { data: Some(vec![1, 1, 2, 3]), msg_resid: None };
    assert!(LightApp::try_from_pb(elem).is_none());
    let bad_utf8 = msg::LightApp { data: Some(vec![0, 0xff, 0xfe]), msg_resid: None };
    assert!(LightApp::try_from_pb(bad_utf8).is_none());
}

#[test]
fn light_app_reads_back_its_element() {
    let card = LightApp::new("{\"app\":\"com.tencent.structmsg\"}".to_string());
    let elems = card.into_elems();
    match elems.into_iter().next() {
        Some(Elem::LightApp(e)) => {
            assert_eq!(
                LightApp::from_pb(e).content,
                "{\"app\":\"com.tencent.structmsg\"}"
            );
        }
        _ => panic!("not a light app"),
    }
}
