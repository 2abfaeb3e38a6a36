use otassets::model::attributes::Item as ItemId;
use otassets::model::{Entity, Attribute, Item, Offset, Position, Textures, Tile};
use otassets::project::{Action, Project, Stage};
use otassets::transport::{Error, Message};

fn item(id: u16) -> Item {
    Item {
        id,
        name: None,
        ground: false,
        stackable: false,
        splash: false,
        fluid_container: false,
        draw_offset: Offset { x: 0, y: 0 },
        height_offset: Offset { x: 0, y: 0 },
        textures: Textures { frames: vec![] },
    }
}

fn tile(id: u16) -> Tile {
    let mut entity = Entity::new();
    entity.attributes.insert(Attribute::Item(ItemId(id)));
    Tile::with_entities(vec![entity])
}

#[test]
fn counts_are_noted_without_a_report() {
    let mut project = Project::new();
    assert_eq!(project.receive(Message::ItemsCount(3)), Action::Wait);
    assert_eq!(project.receive(Message::MapTilesCount(2)), Action::Wait);
    assert_eq!((project.total_items, project.total_tiles), (3, 2));
    assert_eq!(project.tiles_len(), 0);
    assert!(!project.is_complete());
}

#[test]
fn items_are_reported_until_everything_has_arrived() {
    let mut project = Project::new();
    project.receive(Message::ItemsCount(3));
    project.receive(Message::MapTilesCount(1));
    assert_eq!(
        project.receive(Message::Item(item(100))),
        Action::Report { done: 1, total: 3, stage: Stage::Items }
    );
    assert_eq!(
        project.receive(Message::Item(item(100))),
        Action::Report { done: 1, total: 3, stage: Stage::Items }
    );
    assert_eq!(
        project.receive(Message::MapTile((Position(1, 1, 7), tile(100)))),
        Action::Report { done: 1, total: 1, stage: Stage::World }
    );
    assert_eq!(project.receive(Message::Items(vec![item(101), item(102)])), Action::Finish);
    assert!(project.is_complete());
    assert_eq!(project.data.assets.items.len(), 3);
    assert_eq!(project.tiles_len(), 1);
}

#[test]
fn a_batch_of_tiles_is_reported_only_once_the_items_are_there() {
    let mut project = Project::new();
    project.receive(Message::ItemsCount(1));
    project.receive(Message::MapTilesCount(3));
    let batch = vec![(Position(1, 1, 7), tile(1)), (Position(2, 1, 7), tile(2))];
    assert_eq!(project.receive(Message::MapTiles(batch)), Action::Wait);
    assert_eq!(
        project.receive(Message::Item(item(5))),
        Action::Report { done: 1, total: 1, stage: Stage::Items }
    );
    let again = vec![(Position(1, 1, 7), tile(3))];
    assert_eq!(
        project.receive(Message::MapTiles(again)),
        Action::Report { done: 2, total: 3, stage: Stage::World }
    );
    assert_eq!(
        project.data.world.get_tile(&Position(1, 1, 7)).unwrap().entities[0].attributes.item,
        Some(ItemId(3))
    );
    assert_eq!(project.receive(Message::MapTiles(vec![(Position(3, 1, 7), tile(4))])), Action::Finish);
    assert_eq!(
        project.data.world.get_areas()[0].get_tiles(),
        &vec![Position(1, 1, 7), Position(2, 1, 7), Position(1, 1, 7), Position(3, 1, 7)]
    );
}

#[test]
fn the_last_item_of_an_id_in_a_batch_wins() {
    let mut project = Project::new();
    let mut first = item(7);
    first.ground = true;
    let second = item(7);
    assert_eq!(
        project.receive(Message::Items(vec![first, second])),
        Action::Report { done: 1, total: 0, stage: Stage::Items }
    );
    assert!(!project.data.assets.items.get(&7).unwrap().ground);
}

#[test]
fn nothing_is_complete_while_no_count_was_announced() {
    let mut project = Project::new();
    assert_eq!(
        project.receive(Message::MapTile((Position(0, 0, 0), tile(1)))),
        Action::Report { done: 1, total: 0, stage: Stage::World }
    );
    assert_eq!(project.receive(Message::MapTiles(vec![])), Action::Report { done: 1, total: 0, stage: Stage::World });
    assert_eq!(project.receive(Message::Items(vec![])), Action::Report { done: 0, total: 0, stage: Stage::Items });
}

#[test]
fn other_messages_change_nothing() {
    let mut project = Project::new();
    assert_eq!(project.receive(Message::Loaded), Action::Wait);
    assert_eq!(project.receive(Message::Bytes(vec![1, 2, 3])), Action::Wait);
    assert_eq!((project.total_items, project.total_tiles), (0, 0));
    assert_eq!(project.tiles_len(), 0);
}

#[test]
fn stages_have_labels() {
    assert_eq!(Stage::Items.label(), "Loading items");
    assert_eq!(Stage::World.label(), "Loading world");
    assert_ne!(Error::Something, Error::WebSocket);
}
