use locker::error::Error;
use locker::sqos::{check_types_unique, SQoS, SQoSItem, SQoSType};

#[test]
fn insert_twice_is_refused() {
    let mut sqos = SQoS::new();
    assert_eq!(sqos.insert(SQoSItem::new(SQoSType::Reveal, None)), Ok(()));
    assert_eq!(
        sqos.insert(SQoSItem::new(SQoSType::Reveal, Some(vec![1]))),
        Err(Error::DuplicateQoSType)
    );
    assert_eq!(sqos.get(), vec![SQoSItem::new(SQoSType::Reveal, None)]);
}

#[test]
fn insert_keeps_the_order() {
    let mut sqos = SQoS::new();
    sqos.insert(SQoSItem::new(SQoSType::Threshold, Some(vec![3]))).unwrap();
    sqos.insert(SQoSItem::new(SQoSType::Reveal, None)).unwrap();
    sqos.insert(SQoSItem::new(SQoSType::Challenge, Some(vec![]))).unwrap();
    assert_eq!(
        sqos.get(),
        vec![
            SQoSItem::new(SQoSType::Threshold, Some(vec![3])),
            SQoSItem::new(SQoSType::Reveal, None),
            SQoSItem::new(SQoSType::Challenge, Some(vec![])),
        ]
    );
}

#[test]
fn remove_takes_out_one_kind() {
    let mut sqos = SQoS::new();
    sqos.insert(SQoSItem::new(SQoSType::Threshold, None)).unwrap();
    sqos.insert(SQoSItem::new(SQoSType::Reveal, None)).unwrap();
    sqos.insert(SQoSItem::new(SQoSType::Priority, None)).unwrap();
    sqos.remove(SQoSType::Reveal);
    assert_eq!(
        sqos.get(),
        vec![SQoSItem::new(SQoSType::Threshold, None), SQoSItem::new(SQoSType::Priority, None)]
    );
    sqos.remove(SQoSType::Reveal);
    assert_eq!(sqos.get().len(), 2);
    sqos.insert(SQoSItem::new(SQoSType::Reveal, Some(vec![9]))).unwrap();
    assert_eq!(sqos.get()[2], SQoSItem::new(SQoSType::Reveal, Some(vec![9])));
}

#[test]
fn remove_from_nothing_does_nothing() {
    let mut sqos = SQoS::new();
    sqos.remove(SQoSType::Identity);
    assert_eq!(sqos.get(), vec![]);
}

#[test]
fn clear_takes_out_everything() {
    let mut sqos = SQoS::new();
    sqos.insert(SQoSItem::new(SQoSType::Isolation, None)).unwrap();
    sqos.insert(SQoSItem::new(SQoSType::CrossVerify, None)).unwrap();
    sqos.clear();
    assert_eq!(sqos.get(), vec![]);
    sqos.clear();
    assert_eq!(sqos.get(), vec![]);
}

#[test]
fn set_replaces_everything() {
    let mut sqos = SQoS::new();
    sqos.insert(SQoSItem::new(SQoSType::Reveal, None)).unwrap();
    let replacement =
        vec![SQoSItem::new(SQoSType::Anonymous, None), SQoSItem::new(SQoSType::Identity, None)];
    assert_eq!(sqos.set(replacement), Ok(()));
    assert_eq!(
        sqos.get(),
        vec![SQoSItem::new(SQoSType::Anonymous, None), SQoSItem::new(SQoSType::Identity, None)]
    );
    assert_eq!(sqos.set(vec![]), Ok(()));
    assert_eq!(sqos.get(), vec![]);
}

#[test]
fn set_with_a_kind_twice_changes_nothing() {
    let mut sqos = SQoS::new();
    sqos.insert(SQoSItem::new(SQoSType::Reveal, None)).unwrap();
    let replacement = vec![
        SQoSItem::new(SQoSType::Anonymous, None),
        SQoSItem::new(SQoSType::Identity, None),
        SQoSItem::new(SQoSType::Anonymous, Some(vec![1])),
    ];
    assert_eq!(sqos.set(replacement), Err(Error::DuplicateQoSType));
    assert_eq!(sqos.get(), vec![SQoSItem::new(SQoSType::Reveal, None)]);
}

#[test]
fn kinds_are_told_apart_pairwise() {
    assert!(check_types_unique(&vec![]));
    assert!(check_types_unique(&vec![SQoSItem::new(SQoSType::Reveal, None)]));
    assert!(check_types_unique(&vec![
        SQoSItem::new(SQoSType::Reveal, None),
        SQoSItem::new(SQoSType::Challenge, None),
        SQoSItem::new(SQoSType::SelectionDelay, None),
    ]));
    assert!(!check_types_unique(&vec![
        SQoSItem::new(SQoSType::Reveal, None),
        SQoSItem::new(SQoSType::Challenge, None),
        SQoSItem::new(SQoSType::Reveal, None),
    ]));
    assert!(!check_types_unique(&vec![
        SQoSItem::new(SQoSType::Challenge, None),
        SQoSItem::new(SQoSType::ExceptionRollback, Some(vec![1])),
        SQoSItem::new(SQoSType::ExceptionRollback, Some(vec![2])),
    ]));
}

#[test]
fn no_kind_twice_after_any_of_these_operations() {
    let kinds = [SQoSType::Reveal, SQoSType::Challenge, SQoSType::Threshold];
    let mut sqos = SQoS::new();
    for round in 0..40usize {
        let kind = kinds[round % 3];
        match round % 7 {
            0 | 1 | 2 | 3 => {
                let _ = sqos.insert(SQoSItem::new(kind, Some(vec![round as u8])));
            }
            4 => sqos.remove(kind),
            5 => {
                let _ = sqos.set(vec![
                    SQoSItem::new(kind, None),
                    SQoSItem::new(kinds[(round + 1) % 3], None),
                    SQoSItem::new(kinds[(round + round / 7) % 3], None),
                ]);
            }
            _ => {
                if round % 2 == 0 {
                    sqos.clear()
                }
            }
        }
        assert!(check_types_unique(&sqos.get()));
    }
}
