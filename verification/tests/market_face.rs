use qqbot::msg::elem::{Dice, FingerGuessing, MarketFace};
use qqbot::pb::msg::elem::Elem;

fn face_of(elems: Vec<Elem>) -> (qqbot::pb::msg::MarketFace, Option<String>) {
    let mut it = elems.into_iter();
    let face = match it.next() {
        Some(Elem::MarketFace(f)) => f,
        _ => panic!("no market face first"),
    };
    let text = match it.next() {
        Some(Elem::Text(t)) => t.str,
        _ => panic!("no text second"),
    };
    (face, text)
}

#[test]
fn dice_element_carries_the_value_less_one() {
    let (face, text) = face_of(Dice::new(3).into_elems());
    assert_eq!(face.mobileparam, Some(b"rscType?1;value=2".to_vec()));
    assert_eq!(face.face_name, Some("[骰子]".as_bytes().to_vec()));
    assert_eq!(face.tab_id, Some(11464));
    assert_eq!(face.item_type, Some(6));
    assert_eq!(face.sub_type, Some(3));
    assert_eq!(face.face_info, Some(1));
    assert_eq!(face.image_width, Some(200));
    assert_eq!(text, Some("[骰子]".to_string()));
}

#[test]
fn dice_reads_back_from_its_face() {
    let (face, _) = face_of(Dice::new(6).into_elems());
    let back = Dice::from_market_face(MarketFace::from_pb(face));
    assert_eq!(back.value, 6);
}

#[test]
fn dice_with_unreadable_value_counts_from_zero() {
    let face = MarketFace { magic_value: "rscType?1;value=x".to_string(), ..MarketFace::default() };
    assert_eq!(Dice::from_market_face(face).value, 1);
}

#[test]
fn finger_guessing_round_trip() {
    for g in [FingerGuessing::Rock, FingerGuessing::Scissors, FingerGuessing::Paper] {
        let (face, text) = face_of(g.into_elems());
        assert_eq!(text, Some("[猜拳]".to_string()));
        let back = FingerGuessing::from_market_face(MarketFace::from_pb(face));
        assert_eq!(back, g);
    }
}

#[test]
fn finger_guessing_values() {
    assert_eq!(MarketFace::from_finger_guessing(FingerGuessing::Rock).magic_value, "rscType?1;value=0");
    assert_eq!(MarketFace::from_finger_guessing(FingerGuessing::Paper).magic_value, "rscType?1;value=2");
    assert_eq!(FingerGuessing::default(), FingerGuessing::Rock);
}

#[test]
fn market_face_from_empty_element_is_default() {
    let f = MarketFace::from_pb(qqbot::pb::msg::MarketFace::default());
    assert_eq!(f.name, "");
    assert_eq!(f.tab_id, 0);
    assert!(f.face_id.is_empty());
}
