use vhs_gui::v4l2::{control_ids, Preset, V4l2Controls};

fn preset(items: &[(&str, i32)]) -> Preset {
    let mut p = Preset::new();
    for (k, v) in items {
        p.insert(k, *v);
    }
    p
}

fn values(c: &V4l2Controls) -> Vec<i32> {
    c.ctrls.iter().map(|c| c.value).collect()
}

#[test]
fn controls_start_from_the_device() {
    let c = V4l2Controls::new(&vec![Some(300), None, Some(-1), Some(5)]);
    assert_eq!(values(&c), vec![255, 127, 0, 5, 0]);
    let names: Vec<&str> = c.ctrls.iter().map(|c| c.name).collect();
    assert_eq!(names, vec!["brightness", "contrast", "saturation", "hue", "gamma"]);
    let labels: Vec<&str> = c.ctrls.iter().map(|c| c.label).collect();
    assert_eq!(labels, vec!["Brightness", "Contrast", "Saturation", "Hue", "Gamma"]);
    assert_eq!(
        control_ids(),
        vec![0x00980900, 0x00980901, 0x00980902, 0x00980903, 0x00980910]
    );
}

#[test]
fn a_preset_is_applied_within_the_ranges() {
    let mut c = V4l2Controls::new(&Vec::new());
    let msgs = c.apply_values(&preset(&[("gamma", 99), ("contrast", 10), ("other", 1)]));
    assert_eq!(values(&c), vec![25, 10, 127, 0, 50]);
    let sent: Vec<(u32, i32)> = msgs.iter().map(|m| (m.cid, m.value)).collect();
    assert_eq!(sent, vec![(0x00980901, 10), (0x00980910, 50)]);
}

#[test]
fn a_snapshot_gives_every_value_back() {
    let mut c = V4l2Controls::new(&vec![Some(1), Some(2), Some(3), Some(4), Some(5)]);
    let p = c.to_preset();
    assert_eq!(p.get("hue"), Some(4));
    assert_eq!(p.get("unknown"), None);
    c.reset_all();
    assert_eq!(values(&c), vec![25, 127, 127, 0, 0]);
    assert_eq!(c.apply_values(&p).len(), 5);
    assert_eq!(values(&c), vec![1, 2, 3, 4, 5]);
}

#[test]
fn resets_tell_the_device() {
    let mut c = V4l2Controls::new(&vec![Some(1), Some(2), Some(3), Some(4), Some(5)]);
    let m = c.reset_one(1);
    assert_eq!((m.cid, m.value), (0x00980901, 127));
    assert_eq!(values(&c), vec![1, 127, 3, 4, 5]);
    let all: Vec<i32> = c.reset_all().iter().map(|m| m.value).collect();
    assert_eq!(all, vec![25, 127, 127, 0, 0]);
}

#[test]
fn the_slider_panel() {
    let mut c = V4l2Controls::new(&Vec::new());
    let (msgs, changed) = c.apply_panel(&vec![(0, 400), (3, 7)], Some(0));
    assert!(changed);
    let sent: Vec<(u32, i32)> = msgs.iter().map(|m| (m.cid, m.value)).collect();
    assert_eq!(sent, vec![(0x00980900, 255), (0x00980903, 7), (0x00980900, 25)]);
    assert_eq!(values(&c), vec![25, 127, 127, 7, 0]);
    let (msgs, changed) = c.apply_panel(&Vec::new(), None);
    assert!(!changed && msgs.is_empty());
}

#[test]
fn a_preset_has_each_name_once() {
    let mut p = preset(&[("hue", 1)]);
    assert!(!p.is_empty());
    p.insert("hue", 2);
    assert_eq!(p.get("hue"), Some(2));
    assert_eq!(p.items.len(), 1);
    assert!(Preset::new().is_empty());
}
