use yaxum::action::{Action, Outcome};
use yaxum::area::Area;
use yaxum::config::Borders;
use yaxum::workspace::{Client, Workspaces};

const AREA: Area = Area { x: 0, y: 0, width: 1000, height: 800 };

fn with(sizes: usize, windows: &[(u32, bool)]) -> Workspaces {
    let mut workspaces = Workspaces::new();
    workspaces.resize(sizes);
    for (window, float) in windows {
        workspaces.insert(Client::new(*window, *float));
    }
    workspaces
}

fn placed(window: u32, x: u16, y: u16, width: u16, height: u16) -> Action {
    Action::MovResize { window, area: Area::new(x, y, width, height) }
}

#[test]
fn starts_without_workspaces() {
    let workspaces = Workspaces::new();
    assert_eq!(workspaces.len(), 0);
    assert!(!workspaces.shows());
    assert_eq!(workspaces.tile(AREA, 0), vec![]);
}

#[test]
fn growing_adds_empty_workspaces() {
    let mut workspaces = with(2, &[(1, false)]);
    workspaces.resize(4);
    assert_eq!(workspaces.len(), 4);
    assert_eq!(workspaces.workspaces[0], vec![Client::new(1, false)]);
    assert_eq!(workspaces.workspaces[3], vec![]);
    workspaces.resize(4);
    assert_eq!(workspaces.len(), 4);
    assert_eq!(workspaces.find(1), Some(0));
}

#[test]
fn growing_in_steps_is_growing_at_once() {
    let mut steps = with(1, &[(1, false)]);
    steps.resize(3);
    steps.resize(5);
    let mut once = with(1, &[(1, false)]);
    once.resize(5);
    assert_eq!(steps.workspaces, once.workspaces);
}

#[test]
fn shrinking_drops_everything() {
    let mut workspaces = with(3, &[(1, false), (2, false)]);
    workspaces.resize(2);
    assert_eq!(workspaces.len(), 0);
    assert!(!workspaces.shows());
}

#[test]
fn shrinking_to_zero_is_ignored() {
    let mut workspaces = with(3, &[(1, false)]);
    workspaces.resize(0);
    assert_eq!(workspaces.len(), 3);
    assert_eq!(workspaces.find(1), Some(0));
}

#[test]
fn find_gives_the_first_place() {
    let workspaces = with(1, &[(5, false), (6, false), (5, true), (7, true)]);
    assert_eq!(workspaces.find(5), Some(0));
    assert_eq!(workspaces.find(6), Some(1));
    assert_eq!(workspaces.find(7), Some(3));
    assert_eq!(workspaces.find(8), None);
}

#[test]
fn is_float_goes_by_the_first_client() {
    let workspaces = with(1, &[(5, false), (6, true), (5, true)]);
    assert!(!workspaces.is_float(5));
    assert!(workspaces.is_float(6));
    assert!(!workspaces.is_float(8));
}

#[test]
fn remove_undoes_the_last_insert() {
    let mut workspaces = with(2, &[(5, false), (6, true)]);
    workspaces.insert(Client::new(7, false));
    assert_eq!(workspaces.find(7), Some(2));
    workspaces.remove(2);
    assert_eq!(workspaces.workspaces[0], vec![Client::new(5, false), Client::new(6, true)]);
}

#[test]
fn remove_closes_the_gap() {
    let mut workspaces = with(1, &[(5, false), (6, true), (7, false)]);
    workspaces.remove(1);
    assert_eq!(workspaces.workspaces[0], vec![Client::new(5, false), Client::new(7, false)]);
}

#[test]
fn change_focus_goes_where_it_is_told() {
    let workspaces = with(1, &[(5, false), (6, true), (7, false)]);
    assert_eq!(
        workspaces.change_focus(6, |index| index + 1),
        vec![Action::SetInputFocus { window: 7 }]
    );
    assert_eq!(workspaces.change_focus(7, |_| 0), vec![Action::SetInputFocus { window: 5 }]);
    assert_eq!(workspaces.change_focus(7, |index| index + 1), vec![]);
    assert_eq!(workspaces.change_focus(8, |_| 0), vec![]);
}

#[test]
fn map_clients_visits_every_workspace() {
    let mut workspaces = with(2, &[(5, false), (6, true)]);
    workspaces.select(2);
    workspaces.insert(Client::new(7, false));
    let outcome = workspaces.map_clients(|client| {
        client.float = !client.float;
        Outcome::<u8> { actions: vec![Action::Raise { window: client.window }], result: Ok(()) }
    });
    assert_eq!(outcome.result, Ok(()));
    assert_eq!(
        outcome.actions,
        vec![
            Action::Raise { window: 5 },
            Action::Raise { window: 6 },
            Action::Raise { window: 7 },
        ]
    );
    assert_eq!(workspaces.workspaces[0], vec![Client::new(5, true), Client::new(6, false)]);
    assert_eq!(workspaces.workspaces[1], vec![Client::new(7, true)]);
}

#[test]
fn plain_borders_for_every_client() {
    let mut workspaces = with(1, &[(5, false), (6, true)]);
    let borders = Borders { width: 3, normal: 0x111111, focused: 0xff0000 };
    assert_eq!(
        workspaces.paint_borders(borders),
        vec![
            Action::SetBorderWidth { window: 5, width: 3 },
            Action::SetBorderPixel { window: 5, pixel: 0x111111 },
            Action::SetBorderWidth { window: 6, width: 3 },
            Action::SetBorderPixel { window: 6, pixel: 0x111111 },
        ]
    );
}

#[test]
fn lone_client_fills_the_area() {
    let workspaces = with(1, &[(1, false)]);
    assert_eq!(
        workspaces.tile(AREA, 10),
        vec![placed(1, 10, 10, 980, 780), Action::MapWindow { window: 1 }]
    );
}

#[test]
fn tiled_clients_halve_the_rest() {
    let workspaces = with(1, &[(1, false), (2, true), (3, false), (4, false)]);
    assert_eq!(
        workspaces.tile(AREA, 0),
        vec![
            placed(1, 0, 0, 500, 800),
            Action::MapWindow { window: 1 },
            Action::MapWindow { window: 2 },
            placed(3, 500, 0, 500, 400),
            Action::MapWindow { window: 3 },
            placed(4, 500, 400, 500, 400),
            Action::MapWindow { window: 4 },
        ]
    );
}

#[test]
fn last_tiled_client_ignores_later_floating_ones() {
    let workspaces = with(1, &[(1, false), (2, true)]);
    assert_eq!(
        workspaces.tile(AREA, 5),
        vec![
            placed(1, 5, 5, 990, 790),
            Action::MapWindow { window: 1 },
            Action::MapWindow { window: 2 },
        ]
    );
}

#[test]
fn only_the_selected_workspace_is_shown() {
    let mut workspaces = with(3, &[(1, false)]);
    workspaces.select(2);
    workspaces.insert(Client::new(2, true));
    assert_eq!(
        workspaces.tile(AREA, 0),
        vec![Action::UnmapWindow { window: 1 }, Action::MapWindow { window: 2 }]
    );
}

#[test]
fn select_counts_from_one() {
    let mut workspaces = with(3, &[]);
    workspaces.select(3);
    assert_eq!(workspaces.current, 2);
    workspaces.select(0);
    assert_eq!(workspaces.current, 0);
    workspaces.select(2);
    workspaces.select(4);
    assert_eq!(workspaces.current, 1);
}

#[test]
fn tiles_only_where_the_clients_fit() {
    let workspaces = with(1, &[(1, false), (2, false)]);
    assert!(workspaces.tiles(AREA, 250));
    assert!(!workspaces.tiles(AREA, 251));
    let floating = with(1, &[(1, true), (2, true)]);
    assert!(floating.tiles(AREA, 1000));
}

#[test]
fn map_clients_stops_at_the_first_failure() {
    let mut workspaces = with(3, &[(5, false), (6, false)]);
    workspaces.select(2);
    workspaces.insert(Client::new(7, false));
    workspaces.insert(Client::new(8, false));
    workspaces.select(3);
    workspaces.insert(Client::new(9, false));
    let outcome = workspaces.map_clients(|client| {
        client.float = true;
        Outcome {
            actions: vec![Action::Raise { window: client.window }],
            result: if client.window == 7 { Err("seven") } else { Ok(()) },
        }
    });
    assert_eq!(outcome.result, Err("seven"));
    assert_eq!(
        outcome.actions,
        vec![
            Action::Raise { window: 5 },
            Action::Raise { window: 6 },
            Action::Raise { window: 7 },
        ]
    );
    assert_eq!(workspaces.workspaces[0], vec![Client::new(5, true), Client::new(6, true)]);
    assert_eq!(workspaces.workspaces[1], vec![Client::new(7, true), Client::new(8, false)]);
    assert_eq!(workspaces.workspaces[2], vec![Client::new(9, false)]);
}
