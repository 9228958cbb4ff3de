use lle_gui::checkpoint::{CheckPoint, CheckPointEvent, CheckPoints, Restorable};
use lle_gui::file::Extension;

#[derive(Debug, Clone, PartialEq)]
struct Counter {
    value: i64,
}

impl Restorable for Counter {
    type Store = i64;
    fn checkpoint(&self) -> CheckPoint<i64> {
        CheckPoint { name: None, state: self.value }
    }
    fn restore_by_ref(&mut self, checkpoint: &CheckPoint<i64>) {
        self.value = checkpoint.state;
    }
}

struct Model;
impl Extension for Model {
    fn extension() -> String {
        "lle".to_string()
    }
}

#[test]
fn add_restore_delete() {
    let mut cps: CheckPoints<i64> = CheckPoints::new();
    let mut c = Counter { value: 3 };
    cps.add(&mut c);
    c.value = 10;
    cps.add(&mut c);
    assert_eq!(cps.len(), 2);
    c.value = -1;
    cps.restore(&mut c, 0);
    assert_eq!(c.value, 3);
    cps.restore(&mut c, 1);
    assert_eq!(c.value, 10);
    cps.delete(0);
    assert_eq!(cps.len(), 1);
    assert_eq!(cps.get(0).state, 10);
}

#[test]
fn click_then_load_restores_selected() {
    let mut cps: CheckPoints<i64> = CheckPoints::default();
    let mut c = Counter { value: 1 };
    cps.add(&mut c);
    c.value = 2;
    cps.add(&mut c);
    assert_eq!(cps.handle_event(CheckPointEvent::Load), None);
    assert_eq!(cps.handle_event(CheckPointEvent::Click(0)), None);
    assert_eq!(cps.current(), Some(0));
    assert_eq!(cps.handle_event(CheckPointEvent::Load), Some(0));
    assert_eq!(cps.handle_event(CheckPointEvent::DoubleClick(1)), Some(1));
    assert_eq!(cps.current(), Some(1));
}

#[test]
fn delete_removes_selection() {
    let mut cps: CheckPoints<i64> = CheckPoints::new();
    let mut c = Counter { value: 1 };
    cps.add(&mut c);
    c.value = 2;
    cps.add(&mut c);
    c.value = 3;
    cps.add(&mut c);
    cps.handle_event(CheckPointEvent::Click(1));
    assert_eq!(cps.handle_event(CheckPointEvent::Delete), None);
    assert_eq!(cps.current(), None);
    assert_eq!(cps.len(), 2);
    assert_eq!(cps.get(0).state, 1);
    assert_eq!(cps.get(1).state, 3);
    assert_eq!(cps.handle_event(CheckPointEvent::Load), None);
    // deleting without a selection changes nothing
    cps.handle_event(CheckPointEvent::Delete);
    assert_eq!(cps.len(), 2);
}

#[test]
fn rename_selected_checkpoint() {
    let mut cps: CheckPoints<i64> = CheckPoints::new();
    let mut c = Counter { value: 5 };
    cps.add(&mut c);
    cps.rename_selected("ignored".to_string());
    assert_eq!(cps.get(0).name, None);
    cps.handle_event(CheckPointEvent::Click(0));
    cps.rename_selected("soliton".to_string());
    assert_eq!(cps.get(0).name.as_deref(), Some("soliton"));
    assert_eq!(cps.get(0).state, 5);
}

#[test]
fn checkpoint_extension_appends_cp() {
    assert_eq!(CheckPoints::<Model>::extension(), "lle.cp");
}

#[test]
fn parts_round_trip() {
    let cps = CheckPoints::from_parts(
        vec![CheckPoint { name: Some("x".to_string()), state: 1i64 }],
        Some(0),
    );
    assert_eq!(cps.current(), Some(0));
    let (points, current) = cps.into_parts();
    assert_eq!(points.len(), 1);
    assert_eq!(points[0].state, 1);
    assert_eq!(current, Some(0));
}
