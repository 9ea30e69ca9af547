use std::collections::BTreeMap;
use navign::pathfinding::areas::{
    locate_areas, plan_route, search_areas, AreaGraph, AreaLink, ConnectivityLimits, Endpoint,
    Leg, Transport,
};
use navign::pathfinding::errors::{InnerPathError, InterPathError};
use navign::pathfinding::grid::{get_neighbors, reconstruct_path};
use navign::pathfinding::mesh::{build_triangle_adjacency, shares_edge};
use navign::pathfinding::search::find_grid_path;
use navign::pathfinding::wkt_text::{polygon_coordinate_texts, WktError};
use navign::schema::places::ConnectionType;

#[test]
fn test_triangle_shares_edge() {
    let tri1 = [0usize, 1, 2];
    let tri2 = [1usize, 3, 2];
    // They share vertices at indices 1 and 2
    assert!(shares_edge(&tri1, &tri2));
}

#[test]
fn triangles_with_one_common_vertex_are_not_adjacent() {
    assert!(!shares_edge(&[0, 1, 2], &[2, 3, 4]));
    let adjacency = build_triangle_adjacency(&[[0, 1, 2], [1, 3, 2], [2, 3, 4], [5, 6, 7]]);
    assert_eq!(adjacency, vec![vec![1], vec![0, 2], vec![1], vec![]]);
}

#[test]
fn grid_neighbours_in_direction_order() {
    // 3 x 3 grid, all cells inside
    let bounded = vec![true; 9];
    assert_eq!(get_neighbors(4, 3, 3, &bounded), vec![3, 5, 1, 7, 0, 6, 2, 8]);
    assert_eq!(get_neighbors(0, 3, 3, &bounded), vec![1, 3, 4]);
    let mut holes = vec![true; 9];
    holes[5] = false;
    holes[8] = false;
    assert_eq!(get_neighbors(4, 3, 3, &holes), vec![3, 1, 7, 0, 6, 2]);
}

#[test]
fn path_rebuilt_from_predecessors() {
    let mut came_from = BTreeMap::new();
    came_from.insert(5usize, 2usize);
    came_from.insert(2, 0);
    came_from.insert(9, 5);
    assert_eq!(reconstruct_path(&came_from, 9), vec![0, 2, 5, 9]);
    assert_eq!(reconstruct_path(&came_from, 0), vec![0]);
}

fn link(id: usize, conn_type: ConnectionType, ends: &[(usize, usize, bool)]) -> AreaLink {
    AreaLink {
        id,
        conn_type,
        endpoints: ends.iter().map(|&(area, point, enabled)| Endpoint { area, point, enabled }).collect(),
    }
}

/// Three areas in a row: 0 -(elevator 10)- 1 -(stairs 20)- 2, plus a direct escalator 0 - 2.
fn site() -> AreaGraph {
    // points: 0 start, 1/2 elevator ends, 3/4 stairs ends, 5/6 escalator ends
    let n_points = 7;
    let mut cost = vec![vec![0u64; n_points]; n_points];
    for p in 0..n_points {
        for q in 0..n_points {
            cost[p][q] = ((p as i64 - q as i64).abs() * 10) as u64;
        }
    }
    cost[0][5] = 1000;
    AreaGraph {
        areas: vec![
            vec![
                link(10, ConnectionType::Elevator, &[(0, 1, true), (1, 2, true)]),
                link(30, ConnectionType::Escalator, &[(0, 5, true), (2, 6, true)]),
            ],
            vec![
                link(10, ConnectionType::Elevator, &[(0, 1, true), (1, 2, true)]),
                link(20, ConnectionType::Stairs, &[(1, 3, true), (2, 4, true)]),
            ],
            vec![link(20, ConnectionType::Stairs, &[(1, 3, true), (2, 4, true)])],
        ],
        cost,
    }
}

#[test]
fn area_search_takes_the_cheaper_way() {
    let g = site();
    let route = search_areas(&g, 0, 0, 2, ConnectivityLimits::default()).unwrap();
    assert_eq!(route.areas, vec![0, 1, 2]);
    assert_eq!(route.connections, vec![10, 20]);
}

#[test]
fn area_search_keeps_the_first_entry_it_settles() {
    // Area 0 reaches area 1 at point 1 (cost 10) or point 2 (cost 11); from point 1 the way on
    // to area 2 costs 100, from point 2 only 1. Area 1 is settled entered at point 1, so the
    // route goes through connection 1 although entering at point 2 would total less.
    let mut cost = vec![vec![500u64; 4]; 4];
    for p in 0..4 {
        cost[p][p] = 0;
    }
    cost[0][1] = 10;
    cost[0][2] = 11;
    cost[1][3] = 100;
    cost[2][3] = 1;
    let g = AreaGraph {
        areas: vec![
            vec![
                link(1, ConnectionType::Gate, &[(1, 1, true)]),
                link(2, ConnectionType::Gate, &[(1, 2, true)]),
            ],
            vec![link(3, ConnectionType::Gate, &[(2, 3, true)])],
            vec![],
        ],
        cost,
    };
    let route = search_areas(&g, 0, 0, 2, ConnectivityLimits::default()).unwrap();
    assert_eq!(route.areas, vec![0, 1, 2]);
    assert_eq!(route.connections, vec![1, 3]);
}

#[test]
fn area_search_respects_limits() {
    let g = site();
    let no_elevator = ConnectivityLimits { elevator: false, stairs: true, escalator: true };
    let route = search_areas(&g, 0, 0, 2, no_elevator).unwrap();
    assert_eq!(route.areas, vec![0, 2]);
    assert_eq!(route.connections, vec![30]);
    let nothing = ConnectivityLimits { elevator: false, stairs: true, escalator: false };
    assert!(search_areas(&g, 0, 0, 2, nothing).is_none());
    assert!(matches!(plan_route(&g, 0, 0, 2, nothing), Err(InterPathError::NoPathFound)));
}

#[test]
fn route_plan_lays_out_legs() {
    let g = site();
    let plan = plan_route(&g, 0, 0, 2, ConnectivityLimits::default()).unwrap();
    assert!(plan.failure.is_none());
    assert_eq!(
        plan.legs,
        vec![
            Leg {
                area: 0,
                from_point: 0,
                to_point: Some(1),
                transport: Some(Transport { connection: 10, next_area: 1, conn_type: ConnectionType::Elevator }),
            },
            Leg {
                area: 1,
                from_point: 2,
                to_point: Some(3),
                transport: Some(Transport { connection: 20, next_area: 2, conn_type: ConnectionType::Stairs }),
            },
            Leg { area: 2, from_point: 4, to_point: None, transport: None },
        ]
    );
    let same = plan_route(&g, 1, 3, 1, ConnectivityLimits::default()).unwrap();
    assert_eq!(same.legs, vec![Leg { area: 1, from_point: 3, to_point: None, transport: None }]);
}

#[test]
fn disabled_ends_are_not_taken() {
    let mut g = site();
    g.areas[0][0].endpoints[1].enabled = false;
    g.areas[0][1].endpoints[1].enabled = false;
    assert!(search_areas(&g, 0, 0, 2, ConnectivityLimits::default()).is_none());
}

#[test]
fn missing_connection_data_breaks_the_plan() {
    let mut g = site();
    // area 1 lists the stairs without an end inside area 1
    g.areas[1][1] = link(20, ConnectionType::Stairs, &[(2, 4, true)]);
    g.areas[1].push(link(20, ConnectionType::Stairs, &[(1, 3, true), (2, 4, true)]));
    let plan = plan_route(&g, 0, 0, 2, ConnectivityLimits::default()).unwrap();
    assert_eq!(plan.failure, Some(InterPathError::InvalidConnection));
    assert_eq!(plan.legs.len(), 1);
}

#[test]
fn area_names_resolve_to_positions() {
    let names = vec!["hall".to_string(), "food".to_string(), "hall".to_string()];
    assert_eq!(locate_areas(&names, "food", "hall"), Ok((1, 0)));
    assert_eq!(locate_areas(&names, "gym", "hall"), Err(InterPathError::InvalidStartArea));
    assert_eq!(locate_areas(&names, "hall", "gym"), Err(InterPathError::InvalidEndArea));
}

#[test]
fn path_error_messages() {
    assert_eq!(InnerPathError::StartOutsidePolygon.to_string(), "Start point is outside the polygon");
    assert_eq!(InnerPathError::NoPathFound.debug_name(), "NoPathFound");
    let e = InterPathError::from_inner(InnerPathError::EndOutsidePolygon);
    assert_eq!(e, InterPathError::InnerPathError("EndOutsidePolygon".to_string()));
    assert_eq!(e.to_string(), "Inner path error: EndOutsidePolygon");
    assert_eq!(InterPathError::NoPathFound.to_string(), "No path found between areas");
}

fn manhattan(a: usize, b: usize, cols: usize) -> u64 {
    let (ra, ca) = ((a / cols) as i64, (a % cols) as i64);
    let (rb, cb) = ((b / cols) as i64, (b % cols) as i64);
    (((ra - rb).abs() + (ca - cb).abs()) * 100) as u64
}

fn grid_search(cols: usize, rows: usize, bounded: &[bool], start: usize, goal: usize) -> Option<Vec<usize>> {
    let n = bounded.len();
    let step_cost: Vec<Vec<u64>> = (0..n)
        .map(|i| get_neighbors(i, cols, rows, bounded).iter().map(|&j| manhattan(i, j, cols)).collect())
        .collect();
    let heuristic: Vec<u64> = (0..n).map(|i| manhattan(i, goal, cols)).collect();
    find_grid_path(cols, rows, bounded, start, goal, &step_cost, &heuristic)
}

#[test]
fn grid_search_crosses_open_square() {
    assert_eq!(grid_search(3, 3, &[true; 9], 0, 8), Some(vec![0, 4, 8]));
}

#[test]
fn grid_search_goes_around_holes() {
    let bounded = [true, true, true, false, false, true, true, true, true];
    assert_eq!(grid_search(3, 3, &bounded, 0, 6), Some(vec![0, 1, 5, 7, 6]));
}

#[test]
fn grid_search_gives_up_when_cut_off() {
    let bounded = [true, false, false, false, false, false, false, false, true];
    assert_eq!(grid_search(3, 3, &bounded, 0, 8), None);
}

#[test]
fn grid_search_takes_the_cheapest_walk_not_the_shortest() {
    // 2 rows of 3 cells; entering the top middle cell costs 1000, any other step 10.
    let (cols, rows) = (3usize, 2usize);
    let bounded = [true; 6];
    let step_cost: Vec<Vec<u64>> = (0..6)
        .map(|i| {
            get_neighbors(i, cols, rows, &bounded)
                .iter()
                .map(|&j| if j == 1 { 1000 } else { 10 })
                .collect()
        })
        .collect();
    let heuristic = vec![0u64; 6];
    assert_eq!(find_grid_path(cols, rows, &bounded, 0, 2, &step_cost, &heuristic), Some(vec![0, 4, 2]));
}

#[test]
fn test_polygon_from_wkt() {
    let wkt = "POLYGON((0 0, 4 0, 4 3, 0 3, 0 0))";
    let poly = polygon_coordinate_texts(wkt);
    assert!(poly.error.is_none());
    let vertices: Vec<(f64, f64)> = poly
        .pairs
        .iter()
        .map(|(x, y)| (x.parse::<f64>().unwrap(), y.parse::<f64>().unwrap()))
        .collect();
    assert_eq!(vertices.len(), 5);
    assert_eq!(vertices[0], (0.0, 0.0));
    assert_eq!(vertices[2], (4.0, 3.0));
}

#[test]
fn polygon_text_errors() {
    assert_eq!(polygon_coordinate_texts("POINT(1 2)").error, Some(WktError::NotPolygon));
    assert_eq!(polygon_coordinate_texts("  POLYGON (1 2)").error, Some(WktError::MissingOpen));
    assert_eq!(polygon_coordinate_texts("POLYGON((1 2)").error, Some(WktError::MissingClose));
    assert_eq!(polygon_coordinate_texts("POLYGON))((").error, Some(WktError::InvalidFormat));
    let arity = polygon_coordinate_texts("POLYGON((1 2, 3, 4 5))");
    assert_eq!(arity.error, Some(WktError::CoordinateArity));
    assert_eq!(arity.pairs, vec![("1".to_string(), "2".to_string())]);
    let spaced = polygon_coordinate_texts("\t POLYGON((  -1.5\u{3000}2e3 ,x y))\n");
    assert_eq!(spaced.error, None);
    assert_eq!(
        spaced.pairs,
        vec![("-1.5".to_string(), "2e3".to_string()), ("x".to_string(), "y".to_string())]
    );
    assert_eq!(WktError::MissingClose.as_str(), "Missing closing ))");
}
