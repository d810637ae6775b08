use shikataganai::array::{Array, Array2d, Array3d, ArrayIndex};
use shikataganai::coords::{
    add_ddd, get_chunk_coord, neg_ddd, sub_ddd, FullNeighbours, ImmediateNeighbours, DD, DDD,
};
use shikataganai::light::LightLevel;

#[test]
fn componentwise_arithmetic() {
    assert_eq!(neg_ddd((1, -2, 3)), (-1, 2, -3));
    assert_eq!(add_ddd((1, 2, 3), (10, -20, 30)), (11, -18, 33));
    assert_eq!(sub_ddd((1, 2, 3), (10, -20, 30)), (-9, 22, -27));
}

#[test]
fn chunk_coordinates_round_down() {
    assert_eq!(get_chunk_coord((0, 7, 0)), (0, 0));
    assert_eq!(get_chunk_coord((15, 0, 16)), (0, 1));
    assert_eq!(get_chunk_coord((-1, 5, -16)), (-1, -1));
    assert_eq!(get_chunk_coord((-17, 0, -32)), (-2, -2));
}

#[test]
fn six_face_neighbours_in_order() {
    let n = (5, 6, 7).immediate_neighbours();
    assert_eq!(
        n,
        [(4, 6, 7), (6, 6, 7), (5, 5, 7), (5, 7, 7), (5, 6, 6), (5, 6, 8)]
    );
}

#[test]
fn full_neighbourhood_has_27_cells() {
    let mut it = (10, 20, 30).full_neighbours();
    let mut seen: Vec<DDD> = Vec::new();
    while let Some(c) = it.next() {
        seen.push(c);
    }
    assert_eq!(seen.len(), 27);
    assert_eq!(seen[0], (9, 19, 29));
    assert_eq!(seen[13], (10, 20, 30));
    assert_eq!(seen[26], (11, 21, 31));
    for i in 0..27 {
        for j in 0..i {
            assert_ne!(seen[i], seen[j]);
        }
    }
    assert_eq!(it.next(), None);
}

#[test]
fn box_size_index_and_stepping_3d() {
    let b: (DDD, DDD) = ((0, 0, 0), (1, 2, 3));
    assert_eq!(<DDD as ArrayIndex>::size(&b), 24);
    assert_eq!((1, 2, 3).idx(&b), 23);
    assert_eq!((1, 0, 0).idx(&b), 1);
    assert_eq!((0, 1, 0).idx(&b), 2);
    assert_eq!((0, 0, 1).idx(&b), 6);
    assert_eq!((1, 0, 0).next(&b), Some((0, 1, 0)));
    assert_eq!((1, 2, 0).next(&b), Some((0, 0, 1)));
    assert_eq!((1, 2, 3).next(&b), None);
    assert!((1, 2, 3).in_bounds(&b));
    assert!(!(2, 0, 0).in_bounds(&b));
    assert!(!(0, -1, 0).in_bounds(&b));
}

#[test]
fn box_size_index_and_stepping_2d() {
    let b: (DD, DD) = ((-1, -1), (1, 0));
    assert_eq!(<DD as ArrayIndex>::size(&b), 6);
    assert_eq!((1, 0).idx(&b), 5);
    assert_eq!((1, -1).next(&b), Some((-1, 0)));
    assert_eq!((1, 0).next(&b), None);
    assert!(!(2, 0).in_bounds(&b));
}

#[test]
fn stepping_visits_every_cell_once_in_index_order() {
    let b: (DDD, DDD) = ((-2, 3, 5), (0, 4, 7));
    let mut c = b.0;
    let mut k = 0usize;
    loop {
        assert_eq!(c.idx(&b), k);
        k += 1;
        match c.next(&b) {
            None => break,
            Some(n) => c = n,
        }
    }
    assert_eq!(k, <DDD as ArrayIndex>::size(&b));
}

#[test]
fn array_new_init_index_set() {
    let mut a: Array3d<i32> = Array::new_init(((0, 0, 0), (2, 1, 1)), |c: DDD| c.0 + 10 * c.1 + 100 * c.2);
    assert_eq!(a.size(), 12);
    assert_eq!(*a.index((2, 1, 1)), 112);
    a.set((1, 0, 1), -5);
    assert_eq!(*a.index((1, 0, 1)), -5);
    assert_eq!(*a.index((0, 0, 1)), 100);
    *a.index_mut((0, 1, 0)) = 77;
    assert_eq!(*a.index((0, 1, 0)), 77);
    assert!(a.in_bounds((2, 1, 1)));
    assert!(!a.in_bounds((3, 1, 1)));
    assert_eq!(a.bounds(), ((0, 0, 0), (2, 1, 1)));
}

#[test]
fn array_map_and_map_in_place() {
    let mut a: Array2d<u32> = Array::new_init(((0, 0), (3, 3)), |c: DD| (c.0 * 4 + c.1) as u32);
    let doubled = a.map(|_c: DD, v: &u32| *v as u64 * 2);
    assert_eq!(*doubled.index((3, 3)), 30);
    a.map_in_place(|c: DD, v: &u32| if c.0 == 0 { 0 } else { *v + 1 });
    assert_eq!(*a.index((0, 2)), 0);
    assert_eq!(*a.index((2, 1)), 10);
}

#[test]
fn array_zeroed_and_duplicate() {
    let mut a: Array3d<LightLevel> = Array::new_zeroed(((0, 0, 0), (1, 1, 1)));
    assert_eq!(*a.index((1, 1, 1)), LightLevel::dark());
    a.set((0, 1, 0), LightLevel::new(3, 4, 5));
    let b = a.duplicate();
    assert_eq!(*b.index((0, 1, 0)), LightLevel::new(3, 4, 5));
    a.zero_out();
    assert_eq!(*a.index((0, 1, 0)), LightLevel::dark());
    assert_eq!(*b.index((0, 1, 0)), LightLevel::new(3, 4, 5));
}

#[test]
fn array_cells_written_out_read_back() {
    let a: Array3d<i32> = Array::new_init(((0, 0, 0), (1, 2, 1)), |c: DDD| c.0 + 10 * c.1 + 100 * c.2);
    let cells = a.data().clone();
    assert_eq!(cells.len(), 12);
    assert_eq!(cells[0], 0);
    assert_eq!(cells[1], 1);
    assert_eq!(cells[2], 10);
    assert_eq!(cells[6], 100);
    let b = Array::from_data(a.bounds(), cells.clone()).unwrap();
    assert_eq!(b.bounds(), a.bounds());
    assert_eq!(*b.index((1, 2, 1)), 121);
    // One cell too few, and a box turned inside out.
    assert!(Array::<DDD, i32>::from_data(a.bounds(), cells[1..].to_vec()).is_none());
    assert!(Array::<DDD, i32>::from_data(((1, 0, 0), (0, 2, 1)), cells).is_none());
}

#[test]
fn box_validity() {
    assert!(<DD as ArrayIndex>::valid(&((0, 0), (15, 15))));
    assert!(<DD as ArrayIndex>::valid(&((-3, 4), (-3, 4))));
    assert!(!<DD as ArrayIndex>::valid(&((1, 0), (0, 0))));
    assert!(!<DD as ArrayIndex>::valid(&((i32::MIN, i32::MIN), (i32::MAX, i32::MAX))));
    assert!(<DDD as ArrayIndex>::valid(&((0, 0, 0), (15, 127, 15))));
    assert!(!<DDD as ArrayIndex>::valid(&((0, 0, 0), (15, 127, -1))));
    assert!(!<DDD as ArrayIndex>::valid(&((0, 0, 0), (2000, 2000, 2000))));
}
