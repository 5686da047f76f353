use openedit_ui::color::Rgba;
use openedit_ui::diff_view::{build_rows, delete_bg, insert_fg, DiffCache, DiffOp};

#[test]
fn rows_stay_aligned() {
    let ops = vec![
        DiffOp::Equal("a".to_string()),
        DiffOp::Delete("b".to_string()),
        DiffOp::Insert("c".to_string()),
        DiffOp::Equal("d".to_string()),
    ];
    let dark = Rgba::from_rgb(30, 30, 30);
    let fg = Rgba::from_rgb(200, 200, 200);
    let (left, right) = build_rows(&ops, dark, fg);
    assert_eq!(left.len(), 4);
    assert_eq!(right.len(), 4);
    let ln: Vec<Option<usize>> = left.iter().map(|r| r.line_number).collect();
    let rn: Vec<Option<usize>> = right.iter().map(|r| r.line_number).collect();
    assert_eq!(ln, vec![Some(1), Some(2), None, Some(3)]);
    assert_eq!(rn, vec![Some(1), None, Some(2), Some(3)]);
    assert_eq!(left[1].text, "b");
    assert_eq!(right[1].text, "");
    assert_eq!(left[1].bg, Rgba { r: 80, g: 40, b: 40, a: 60 });
    assert_eq!(right[1].bg, delete_bg(dark));
    assert_eq!(right[2].fg, Rgba::from_rgb(130, 220, 130));
    assert_eq!(left[0].bg, Rgba::transparent());
    assert_eq!(left[0].fg, fg);
    let light = Rgba::from_rgb(250, 250, 250);
    assert_eq!(insert_fg(light), Rgba::from_rgb(0, 100, 0));
}

#[test]
fn cache_notices_changes() {
    let mut c = DiffCache::new();
    let (stale, lh, rh) = c.check("x", "y");
    assert_eq!(stale, lh != 0 || rh != 0);
    c.store(vec![DiffOp::Equal("x".to_string())], lh, rh);
    assert!(!c.check("x", "y").0);
    assert!(c.check("x", "z").0);
    assert_eq!(c.diff_ops.len(), 1);
}
