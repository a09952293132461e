use iou::resultify;

#[test]
fn test_resultify() {
    let side_effect = |i, effect: &mut _| -> i32 {
        *effect += 1;
        return i;
    };

    let mut calls = 0;
    let ret = resultify(side_effect(0, &mut calls));
    assert!(match ret { Ok(0) => true, _ => false });
    assert_eq!(calls, 1);

    calls = 0;
    let ret = resultify(side_effect(1, &mut calls));
    assert!(match ret { Ok(1) => true, _ => false });
    assert_eq!(calls, 1);

    calls = 0;
    let ret = resultify(side_effect(-1, &mut calls));
    assert!(match ret { Err(e) if e.raw_os_error() == Some(1) => true, _ => false });
    assert_eq!(calls, 1);
}

#[test]
fn resultify_large_values() {
    assert_eq!(resultify(i32::MAX), Ok(i32::MAX as u32));
    assert_eq!(resultify(-22).unwrap_err().raw_os_error(), Some(22));
    assert_eq!(resultify(i32::MIN).unwrap_err().raw_os_error(), Some(i32::MIN));
}
