use breadboard::model::{Connection, Connections, Region};
use breadboard::order::sort_wires;
use breadboard::packing::{fits_track, pack};
use breadboard::view_model::{color_pair, Color, ViewModel, TRACK_HEIGHT};

#[test]
fn three_wires_in_two_tracks() {
    let mut connections = Connections::new();
    connections.insert(Connection::Top(0, 5)).unwrap();
    connections.insert(Connection::Top(6, 10)).unwrap();
    connections.insert(Connection::Top(2, 8)).unwrap();
    let view_model = ViewModel::from(&connections);
    let tracks = view_model.tracks(Region::Top);
    assert_eq!(tracks.len(), 2);
    assert_eq!(tracks[0].connections, vec![Connection::Top(0, 5), Connection::Top(6, 10)]);
    assert_eq!(tracks[1].connections, vec![Connection::Top(2, 8)]);
    assert!(view_model.tracks(Region::Bottom).is_empty());
}

#[test]
fn the_order_of_insertion_does_not_matter() {
    let wires = [Connection::Top(2, 8), Connection::Top(10, 6), Connection::Top(5, 0)];
    let mut connections = Connections::new();
    for wire in wires {
        connections.insert(wire).unwrap();
    }
    let view_model = ViewModel::from(&connections);
    let tracks = view_model.tracks(Region::Top);
    assert_eq!(tracks.len(), 2);
    assert_eq!(tracks[0].connections, vec![Connection::Top(0, 5), Connection::Top(6, 10)]);
    assert_eq!(tracks[1].connections, vec![Connection::Top(2, 8)]);
}

#[test]
fn each_row_is_packed_by_itself() {
    let mut connections = Connections::new();
    connections.insert(Connection::Top(0, 5)).unwrap();
    connections.insert(Connection::Bottom(0, 5)).unwrap();
    connections.insert(Connection::Bottom(1, 2)).unwrap();
    connections.insert(Connection::Bottom(6, 7)).unwrap();
    let view_model = ViewModel::from(&connections);
    let top = view_model.tracks(Region::Top);
    let bottom = view_model.tracks(Region::Bottom);
    assert_eq!(top.len(), 1);
    assert_eq!(top[0].connections, vec![Connection::Top(0, 5)]);
    assert_eq!(bottom.len(), 2);
    assert_eq!(bottom[0].connections, vec![Connection::Bottom(0, 5), Connection::Bottom(6, 7)]);
    assert_eq!(bottom[1].connections, vec![Connection::Bottom(1, 2)]);
}

#[test]
fn no_wires_no_tracks() {
    let view_model = ViewModel::from(&Connections::new());
    assert!(view_model.tracks(Region::Top).is_empty());
    assert!(view_model.tracks(Region::Bottom).is_empty());
    assert!(pack(&Vec::new()).is_empty());
    assert_eq!(sort_wires(&Vec::new()), Some(Vec::new()));
}

#[test]
fn tracks_have_their_number_place_and_colors() {
    let mut connections = Connections::new();
    for column in 0..5 {
        connections.insert(Connection::Top(column, 10)).unwrap();
    }
    let view_model = ViewModel::from(&connections);
    let tracks = view_model.tracks(Region::Top);
    assert_eq!(tracks.len(), 5);
    let yellow = Color { r: 255, g: 255, b: 0 };
    let orange = Color { r: 255, g: 165, b: 0 };
    let red = Color { r: 255, g: 0, b: 0 };
    let green = Color { r: 0, g: 255, b: 0 };
    let blue = Color { r: 0, g: 0, b: 255 };
    let magenta = Color { r: 255, g: 0, b: 255 };
    let pairs = [(yellow, orange), (red, green), (blue, magenta), (yellow, orange), (red, green)];
    for (number, track) in tracks.iter().enumerate() {
        assert_eq!(track.index, number);
        assert_eq!(track.offset, number * TRACK_HEIGHT);
        assert_eq!(track.colors, pairs[number]);
        assert_eq!(track.connections, vec![Connection::Top(number, 10)]);
    }
    assert_eq!(tracks[4].offset, 72);
    assert_eq!(color_pair(0), (yellow, orange));
    assert_eq!(color_pair(1), (red, green));
    assert_eq!(color_pair(2), (blue, magenta));
    assert_eq!(color_pair(3), (yellow, orange));
    assert_eq!(color_pair(usize::MAX), color_pair(usize::MAX % 3));
}

#[test]
fn the_colors_of_a_track_take_turns() {
    let mut connections = Connections::new();
    connections.insert(Connection::Top(0, 1)).unwrap();
    connections.insert(Connection::Top(2, 3)).unwrap();
    connections.insert(Connection::Top(4, 5)).unwrap();
    let view_model = ViewModel::from(&connections);
    let track = &view_model.tracks(Region::Top)[0];
    assert_eq!(track.connections.len(), 3);
    assert_eq!(track.color_of(0), track.colors.0);
    assert_eq!(track.color_of(1), track.colors.1);
    assert_eq!(track.color_of(2), track.colors.0);
    assert_eq!(track.color_of(0), Color { r: 255, g: 255, b: 0 });
    assert_eq!(track.color_of(1), Color { r: 255, g: 165, b: 0 });
}

#[test]
fn no_two_wires_of_a_track_collide() {
    let mut connections = Connections::new();
    let mut seed: usize = 12345;
    for _ in 0..40 {
        seed = (seed * 1103515245 + 12345) % 2147483648;
        let a = seed % 24;
        seed = (seed * 1103515245 + 12345) % 2147483648;
        let b = seed % 24;
        let _ = connections.insert(Connection::Top(a, b));
    }
    let count = connections.len();
    assert!(count > 10);
    let view_model = ViewModel::from(&connections);
    let tracks = view_model.tracks(Region::Top);
    assert!(!tracks.is_empty() && tracks.len() <= count);
    let mut placed = 0;
    for track in tracks.iter() {
        assert!(!track.connections.is_empty());
        placed += track.connections.len();
        for (i, first) in track.connections.iter().enumerate() {
            assert!(connections.contains(*first));
            for second in track.connections.iter().skip(i + 1) {
                assert!(first.non_overlapping(second));
                assert!(first.high() < second.low());
            }
        }
    }
    assert_eq!(placed, count);
}

#[test]
fn a_full_set_is_laid_out() {
    let mut connections = Connections::new();
    for column in 0..32 {
        connections.insert(Connection::Bottom(column, 40)).unwrap();
    }
    let view_model = ViewModel::from(&connections);
    let tracks = view_model.tracks(Region::Bottom);
    assert_eq!(tracks.len(), 32);
    assert_eq!(tracks[31].offset, 31 * 18);
    assert_eq!(tracks[31].connections, vec![Connection::Bottom(31, 40)]);
}

#[test]
fn sorting_wires() {
    let wires = vec![
        Connection::Bottom(1, 0),
        Connection::Top(6, 10),
        Connection::Top(8, 2),
        Connection::Top(2, 7),
        Connection::Top(0, 5),
        Connection::Top(2, 8),
    ];
    assert_eq!(
        sort_wires(&wires),
        Some(vec![
            Connection::Top(0, 5),
            Connection::Top(2, 7),
            Connection::Top(2, 8),
            Connection::Top(2, 8),
            Connection::Top(6, 10),
            Connection::Bottom(0, 1),
        ])
    );
}

#[test]
fn sorting_takes_as_many_wires_as_the_set_holds() {
    let mut wires: Vec<Connection> = (0..32).rev().map(|c| Connection::Top(c, c + 1)).collect();
    let sorted = sort_wires(&wires).unwrap();
    assert_eq!(sorted.len(), 32);
    assert_eq!(sorted[0], Connection::Top(0, 1));
    assert_eq!(sorted[31], Connection::Top(31, 32));
    wires.push(Connection::Top(50, 60));
    assert_eq!(sort_wires(&wires), None);
}

#[test]
fn packing_takes_wires_in_the_order_given() {
    let wires = vec![Connection::Top(2, 8), Connection::Top(0, 5), Connection::Top(9, 10)];
    assert_eq!(
        pack(&wires),
        vec![vec![Connection::Top(2, 8), Connection::Top(9, 10)], vec![Connection::Top(0, 5)]]
    );
}

#[test]
fn a_wire_fits_a_track_it_does_not_touch() {
    let track = vec![Connection::Top(0, 5), Connection::Top(9, 10)];
    assert!(fits_track(&track, &Connection::Top(6, 8)));
    assert!(!fits_track(&track, &Connection::Top(6, 9)));
    assert!(!fits_track(&track, &Connection::Top(5, 6)));
    assert!(fits_track(&track, &Connection::Bottom(0, 10)));
    assert!(fits_track(&Vec::new(), &Connection::Top(0, 1)));
}

#[test]
fn wires_as_they_are_drawn() {
    let mut connections = Connections::new();
    connections.insert(Connection::Top(0, 5)).unwrap();
    connections.insert(Connection::Top(10, 6)).unwrap();
    connections.insert(Connection::Top(2, 8)).unwrap();
    connections.insert(Connection::Top(11, 12)).unwrap();
    connections.insert(Connection::Bottom(1, 2)).unwrap();
    let view_model = ViewModel::from(&connections);
    let yellow = Color { r: 255, g: 255, b: 0 };
    let orange = Color { r: 255, g: 165, b: 0 };
    let red = Color { r: 255, g: 0, b: 0 };
    assert_eq!(
        view_model.placements(Region::Top),
        vec![
            (0, (0, 5, yellow)),
            (0, (6, 10, orange)),
            (0, (11, 12, yellow)),
            (1, (2, 8, red)),
        ]
    );
    assert_eq!(view_model.placements(Region::Bottom), vec![(0, (1, 2, yellow))]);
    assert!(ViewModel::from(&Connections::new()).placements(Region::Top).is_empty());
}

#[test]
fn there_are_as_many_tracks_as_wires_over_one_column() {
    let mut seed: usize = 99;
    for _ in 0..20 {
        let mut connections = Connections::new();
        for _ in 0..24 {
            seed = (seed * 1103515245 + 12345) % 2147483648;
            let a = (seed >> 8) % 30;
            seed = (seed * 1103515245 + 12345) % 2147483648;
            let b = (seed >> 8) % 30;
            let _ = connections.insert(Connection::Bottom(a, b));
        }
        let wires = connections.iter_region(Region::Bottom);
        let most = (0..30)
            .map(|column| {
                wires.iter().filter(|wire| wire.low() <= column && column <= wire.high()).count()
            })
            .max()
            .unwrap();
        let view_model = ViewModel::from(&connections);
        assert_eq!(view_model.tracks(Region::Bottom).len(), most);
    }
}
