use slice_get_many_poc::disjoint::{DisjointIndices, ManyIndices};
use slice_get_many_poc::overlap::IndexDescriptor::{
    Closed, Full, HalfOpen, Point, PrefixExclusive, PrefixInclusive, SuffixFrom,
};
use slice_get_many_poc::overlap::{IndexDescriptor, IndexOverlap};
use slice_get_many_poc::SliceExt;

#[test]
fn disjoint_indices() {
    assert!(DisjointIndices::new(vec![Point(0), Point(5), Point(9)]).is_some());
    assert!(DisjointIndices::new(vec![HalfOpen(0, 4), HalfOpen(4, 6)]).is_some());
    assert!(DisjointIndices::new(vec![Closed(0, 2), Closed(3, 5)]).is_some());
    assert!(DisjointIndices::new(vec![Full]).is_some());
    assert!(DisjointIndices::new(vec![Full, Full]).is_none());
    assert!(DisjointIndices::new(vec![HalfOpen(2, 5), HalfOpen(4, 8)]).is_none());
    assert!(DisjointIndices::new(vec![Closed(2, 5), Closed(5, 8)]).is_none());

    assert!(DisjointIndices::new(vec![Point(0), Point(5), Point(9)]).is_some());
    assert!(DisjointIndices::new(vec![HalfOpen(4, 8), HalfOpen(8, 10)]).is_some());
    assert!(DisjointIndices::new(vec![Point(5), PrefixExclusive(9)]).is_none());
    assert!(DisjointIndices::new(vec![SuffixFrom(10), HalfOpen(2, 10)]).is_some());
}

#[test]
fn array_index() {
    let array = vec![Point(2), Point(7), Point(9)];

    assert!(array.is_disjoint());
    assert!(!array.is_in_bounds(9));
    assert!(array.is_in_bounds(10));
    assert!(!array.is_disjoint_and_in_bounds(9));
    assert!(array.is_disjoint_and_in_bounds(10));
}

#[test]
fn array_index_overlap() {
    let array = vec![Point(2), Point(9), Point(9)];

    assert!(!array.is_disjoint());
    assert!(!array.is_in_bounds(9));
    assert!(array.is_in_bounds(10));
    assert!(!array.is_disjoint_and_in_bounds(9));
    assert!(!array.is_disjoint_and_in_bounds(10));
}

#[test]
fn array_range() {
    let array = vec![HalfOpen(2, 5), HalfOpen(7, 9), HalfOpen(9, 10)];

    assert!(array.is_disjoint());
    assert!(!array.is_in_bounds(9));
    assert!(array.is_in_bounds(10));
    assert!(!array.is_disjoint_and_in_bounds(9));
    assert!(array.is_disjoint_and_in_bounds(10));
}

#[test]
fn array_range_overlap() {
    let array = vec![HalfOpen(2, 8), HalfOpen(7, 9), HalfOpen(9, 10)];

    assert!(!array.is_disjoint());
    assert!(!array.is_in_bounds(9));
    assert!(array.is_in_bounds(10));
    assert!(!array.is_disjoint_and_in_bounds(9));
    assert!(!array.is_disjoint_and_in_bounds(10));
}

#[test]
fn tuple() {
    let tuple = vec![Point(2), Point(5), HalfOpen(7, 9)];

    assert!(tuple.is_disjoint());
    assert!(!tuple.is_in_bounds(8));
    assert!(tuple.is_in_bounds(9));
    assert!(!tuple.is_disjoint_and_in_bounds(8));
    assert!(tuple.is_disjoint_and_in_bounds(9));
}

#[test]
fn tuple_range() {
    let tuple = vec![HalfOpen(2, 5), HalfOpen(5, 7), Closed(7, 12)];

    assert!(tuple.is_disjoint());
    assert!(!tuple.is_in_bounds(12));
    assert!(tuple.is_in_bounds(13));
    assert!(!tuple.is_disjoint_and_in_bounds(12));
    assert!(tuple.is_disjoint_and_in_bounds(13));
}

#[test]
fn tuple_index_overlap() {
    let tuple = vec![Point(2), Point(2), Closed(7, 12)];

    assert!(!tuple.is_disjoint());
    assert!(!tuple.is_in_bounds(12));
    assert!(tuple.is_in_bounds(13));
    assert!(!tuple.is_disjoint_and_in_bounds(12));
    assert!(!tuple.is_disjoint_and_in_bounds(13));
}

#[test]
fn tuple_range_overlap() {
    let tuple = vec![Closed(2, 7), HalfOpen(7, 12)];

    assert!(!tuple.is_disjoint());
    assert!(!tuple.is_in_bounds(11));
    assert!(tuple.is_in_bounds(12));
    assert!(!tuple.is_disjoint_and_in_bounds(12));
    assert!(!tuple.is_disjoint_and_in_bounds(13));
}

#[test]
fn array_indices() {
    let array: Vec<i32> = vec![0, 1, 2, 3, 4, 5, 6, 7, 8, 9, 10];

    let mut items = array
        .get_many_mut_poc(vec![Point(2), Point(8), Point(5)])
        .unwrap();
    assert_eq!(
        (
            items.view_to_vec(0),
            items.view_to_vec(1),
            items.view_to_vec(2)
        ),
        (vec![2], vec![8], vec![5])
    );

    let a = *items.read(0, 0);
    items.write(0, 0, a * 2);
    let b = *items.read(1, 0);
    items.write(1, 0, b + 10);
    let c = *items.read(2, 0);
    items.write(2, 0, c * 5);

    assert_eq!(
        items.into_inner(),
        vec![0, 1, 4, 3, 4, 25, 6, 7, 18, 9, 10]
    );
}

#[test]
fn array_range_indices() {
    let array: Vec<i32> = vec![0, 1, 2, 3, 4, 5, 6, 7, 8, 9, 10];

    let mut items = array
        .get_many_mut_poc(vec![HalfOpen(1, 4), HalfOpen(6, 9)])
        .unwrap();
    assert_eq!(
        (items.view_to_vec(0), items.view_to_vec(1)),
        (vec![1, 2, 3], vec![6, 7, 8])
    );

    for i in 0..items.view_len(0) {
        let x = *items.read(0, i);
        items.write(0, i, x * 2);
    }

    for i in 0..items.view_len(1) {
        let x = *items.read(1, i);
        items.write(1, i, x + 5);
    }

    assert_eq!(
        items.into_inner(),
        vec![0, 2, 4, 6, 4, 5, 11, 12, 13, 9, 10]
    );
}

#[test]
fn tuple_indices() {
    let array: Vec<i32> = vec![0, 1, 2, 3, 4, 5, 6, 7, 8, 9, 10];

    let mut items = array
        .get_many_mut_poc(vec![Point(2), Point(5), HalfOpen(7, 9)])
        .unwrap();
    assert_eq!(
        (
            items.view_to_vec(0),
            items.view_to_vec(1),
            items.view_to_vec(2)
        ),
        (vec![2], vec![5], vec![7, 8])
    );

    let a = *items.read(0, 0);
    items.write(0, 0, a * 3);
    let b = *items.read(1, 0);
    items.write(1, 0, b + 10);

    for i in 0..items.view_len(2) {
        let x = *items.read(2, i);
        items.write(2, i, x * 10);
    }

    assert_eq!(
        items.into_inner(),
        vec![0, 1, 6, 3, 4, 15, 6, 70, 80, 9, 10]
    );
}

#[test]
fn checked_distinct_indices() {
    let array: Vec<i32> = vec![0, 1, 2, 3, 4, 5, 6, 7, 8, 9, 10];

    let indices = DisjointIndices::new(vec![Point(0), Point(5)]).unwrap();
    let items = array.get_many_mut_poc(indices).unwrap();
    assert_eq!(
        (items.view_to_vec(0), items.view_to_vec(1)),
        (vec![0], vec![5])
    );

    let array = items.into_inner();
    let indices = DisjointIndices::new(vec![Point(0), Closed(5, 9)]).unwrap();
    let items = array.get_many_mut_poc(indices).unwrap();
    assert_eq!(
        (items.view_to_vec(0), items.view_to_vec(1)),
        (vec![0], vec![5, 6, 7, 8, 9])
    );
}

fn shapes() -> Vec<IndexDescriptor> {
    vec![
        Point(0),
        Point(3),
        HalfOpen(1, 4),
        HalfOpen(4, 4),
        Closed(2, 6),
        Closed(5, 3),
        PrefixExclusive(0),
        PrefixExclusive(5),
        PrefixInclusive(0),
        PrefixInclusive(7),
        SuffixFrom(0),
        SuffixFrom(6),
        Full,
    ]
}

#[test]
fn overlap_symmetry_examples() {
    for a in shapes() {
        for b in shapes() {
            assert_eq!(a.overlap(&b), b.overlap(&a));
        }
    }
}

#[test]
fn self_overlap_examples() {
    assert!(Point(4).overlap(&Point(4)));
    assert!(HalfOpen(1, 4).overlap(&HalfOpen(1, 4)));
    assert!(Closed(2, 2).overlap(&Closed(2, 2)));
    assert!(PrefixExclusive(1).overlap(&PrefixExclusive(1)));
    assert!(PrefixInclusive(0).overlap(&PrefixInclusive(0)));
    assert!(SuffixFrom(9).overlap(&SuffixFrom(9)));
    assert!(Full.overlap(&Full));
    assert!(!PrefixExclusive(0).overlap(&PrefixExclusive(0)));
    assert!(!HalfOpen(4, 4).overlap(&HalfOpen(4, 4)));
}

#[test]
fn prefix_exclusive_zero_is_empty() {
    assert!(!PrefixExclusive(0).overlap(&PrefixInclusive(9)));
    assert!(!PrefixExclusive(0).overlap(&Point(0)));
    assert!(!PrefixExclusive(0).overlap(&SuffixFrom(0)));
    assert!(Full.overlap(&PrefixExclusive(0)));
    assert!(PrefixInclusive(3).overlap(&PrefixInclusive(900)));
    assert!(DisjointIndices::new(vec![PrefixExclusive(0), PrefixExclusive(0)]).is_some());
    assert!(DisjointIndices::new(vec![Full, PrefixExclusive(0)]).is_none());
}

#[test]
fn fusion_examples() {
    let collections = vec![
        vec![Point(2), Point(7), Point(9)],
        vec![Point(2), Point(9), Point(9)],
        vec![HalfOpen(2, 5), HalfOpen(4, 8)],
        vec![SuffixFrom(10), HalfOpen(2, 10)],
        vec![],
        vec![Full, Full],
    ];
    for c in collections {
        for limit in [0, 5, 9, 10, 11, 13] {
            assert_eq!(
                c.is_disjoint_and_in_bounds(limit),
                c.is_disjoint() && c.is_in_bounds(limit)
            );
        }
    }
}

#[test]
fn proof_wrapper_soundness() {
    let indices = vec![Point(1), HalfOpen(3, 6), SuffixFrom(8)];
    let proved = DisjointIndices::new(indices.clone()).unwrap();
    assert!(proved.is_disjoint());
    assert!(proved.is_in_bounds(9));
    assert!(!proved.is_in_bounds(8));
    assert!(proved.is_disjoint_and_in_bounds(9));
    assert_eq!(proved.get(), indices);

    assert!(DisjointIndices::new(vec![Point(3), HalfOpen(3, 6)]).is_none());

    let asserted = DisjointIndices::new_unchecked(vec![Point(0), Point(2)]);
    assert!(asserted.is_disjoint());
}

#[test]
fn single_index_collection() {
    assert!(Point(7).is_disjoint());
    assert!(!Point(7).is_in_bounds(7));
    assert!(Point(7).is_in_bounds(8));
    assert!(Closed(2, 4).is_disjoint_and_in_bounds(5));
    assert!(!Closed(2, 4).is_disjoint_and_in_bounds(4));

    let buffer: Vec<u8> = vec![10, 20, 30];
    let items = buffer.get_many_mut_poc(Point(1)).unwrap();
    assert_eq!(items.view_count(), 1);
    assert_eq!(items.view_to_vec(0), vec![20]);
}

#[test]
fn rejection_out_of_bounds() {
    let buffer: Vec<i32> = vec![0, 1, 2, 3, 4];
    assert!(buffer.get_many_mut_poc(vec![Point(5)]).is_none());

    let buffer: Vec<i32> = vec![0, 1, 2, 3, 4];
    assert!(buffer.get_many_mut_poc(vec![HalfOpen(0, 6)]).is_none());

    let buffer: Vec<i32> = vec![0, 1, 2, 3, 4];
    assert!(buffer.get_many_mut_poc(vec![Point(0), Point(0)]).is_none());
}

#[test]
fn point_inside_prefix_rejected() {
    let buffer: Vec<i32> = vec![0, 1, 2, 3, 4, 5, 6, 7, 8, 9, 10];
    assert!(buffer
        .get_many_mut_poc(vec![Point(5), PrefixExclusive(9)])
        .is_none());
}

#[test]
fn suffix_beside_range_accepted() {
    let buffer: Vec<i32> = vec![0, 1, 2, 3, 4, 5, 6, 7, 8, 9, 10];
    let items = buffer
        .get_many_mut_poc(vec![SuffixFrom(10), HalfOpen(2, 10)])
        .unwrap();
    assert_eq!(items.view_to_vec(0), vec![10]);
    assert_eq!(items.view_to_vec(1), vec![2, 3, 4, 5, 6, 7, 8, 9]);
}

#[test]
fn write_does_not_disturb_other_views() {
    let buffer: Vec<i32> = vec![0, 1, 2, 3, 4, 5];
    let mut items = buffer
        .get_many_mut_poc(vec![HalfOpen(0, 3), Closed(3, 5)])
        .unwrap();
    items.write(0, 1, 77);
    assert_eq!(items.view_to_vec(0), vec![0, 77, 2]);
    assert_eq!(items.view_to_vec(1), vec![3, 4, 5]);
    assert_eq!(items.into_inner(), vec![0, 77, 2, 3, 4, 5]);
}

#[test]
fn view_shapes_and_metadata() {
    let buffer: Vec<i32> = vec![0, 1, 2, 3, 4, 5, 6];
    let items = buffer
        .get_many_mut_poc(vec![
            PrefixExclusive(2),
            Closed(2, 3),
            Point(4),
            SuffixFrom(5),
        ])
        .unwrap();
    assert_eq!(items.view_count(), 4);
    assert_eq!(items.descriptor(1), Closed(2, 3));
    assert_eq!(items.view_len(0), 2);
    assert_eq!(items.view_len(3), 2);
    assert_eq!(items.view_to_vec(0), vec![0, 1]);
    assert_eq!(items.view_to_vec(1), vec![2, 3]);
    assert_eq!(items.view_to_vec(2), vec![4]);
    assert_eq!(items.view_to_vec(3), vec![5, 6]);
}

#[test]
fn full_view_and_empty_buffer() {
    let buffer: Vec<u8> = vec![7, 8, 9];
    let items = buffer.get_many_mut_poc(vec![Full]).unwrap();
    assert_eq!(items.view_to_vec(0), vec![7, 8, 9]);

    let empty: Vec<u8> = vec![];
    let items = empty.get_many_mut_poc(vec![Full]).unwrap();
    assert_eq!(items.view_len(0), 0);

    let empty: Vec<u8> = vec![];
    assert!(empty.get_many_mut_poc(Vec::new()).is_some());
}

#[test]
fn degenerate_range_has_empty_view() {
    let buffer: Vec<i32> = vec![0, 1, 2, 3, 4, 5];
    let items = buffer.get_many_mut_poc(vec![HalfOpen(5, 2)]).unwrap();
    assert_eq!(items.view_len(0), 0);
    assert_eq!(items.view_to_vec(0), vec![]);

    let buffer: Vec<i32> = vec![0, 1, 2, 3, 4, 5];
    let items = buffer.get_many_mut_poc(vec![Closed(4, 2)]).unwrap();
    assert_eq!(items.view_len(0), 0);
}

#[test]
fn unchecked_extraction() {
    let buffer: Vec<i32> = vec![0, 1, 2, 3, 4, 5];
    let indices = DisjointIndices::new(vec![Point(0), Point(5)]).unwrap();
    let mut items = buffer.get_many_mut_unchecked_poc(indices);
    items.write(0, 0, -1);
    items.write(1, 0, -6);
    assert_eq!(items.into_inner(), vec![-1, 1, 2, 3, 4, -6]);
}

#[test]
fn text_units() {
    let buffer: Vec<u8> = b"hello world".to_vec();
    let mut items = buffer
        .get_many_mut_poc(vec![HalfOpen(0, 5), HalfOpen(6, 11)])
        .unwrap();
    assert_eq!(items.view_to_vec(0), b"hello".to_vec());
    assert_eq!(items.view_to_vec(1), b"world".to_vec());
    items.write(0, 0, b'H');
    assert_eq!(items.into_inner(), b"Hello world".to_vec());
}
