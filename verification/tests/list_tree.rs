use cr_ui::lists::{ListDrop, ListKind, ListRow, ListTree};

/// A test tree node: a kind, a name and children.
enum Node {
    Library,
    Folder(&'static str, Vec<Node>),
    List(&'static str),
}

fn list(name: &'static str) -> Node {
    Node::List(name)
}

fn folder(name: &'static str, items: Vec<Node>) -> Node {
    Node::Folder(name, items)
}

fn library_root() -> Node {
    Node::Library
}

/// The tree's rows, with each item's name by id.
struct Fixture {
    tree: ListTree,
    names: Vec<(u128, &'static str)>,
}

fn walk(nodes: &[Node], depth: usize, rows: &mut Vec<ListRow>, names: &mut Vec<(u128, &'static str)>) {
    for node in nodes {
        let id = rows.len() as u128 + 100;
        match node {
            Node::Library => {
                rows.push(ListRow { id, kind: ListKind::Library, depth });
                names.push((id, "Library"));
            }
            Node::List(name) => {
                rows.push(ListRow { id, kind: ListKind::List, depth });
                names.push((id, name));
            }
            Node::Folder(name, children) => {
                rows.push(ListRow { id, kind: ListKind::Folder, depth });
                names.push((id, name));
                walk(children, depth + 1, rows, names);
            }
        }
    }
}

fn fixture(nodes: Vec<Node>) -> Fixture {
    let mut rows = Vec::new();
    let mut names = Vec::new();
    walk(&nodes, 0, &mut rows, &mut names);
    Fixture { tree: ListTree::from_rows(rows).expect("a valid tree"), names }
}

impl Fixture {
    fn id_of(&self, name: &str) -> u128 {
        self.names.iter().find(|(_, n)| *n == name).expect("the test item exists").0
    }

    fn name_of(&self, id: u128) -> &'static str {
        self.names.iter().find(|(i, _)| *i == id).expect("a known id").1
    }

    /// The names of the top level, in order.
    fn top(&self) -> Vec<&'static str> {
        self.tree.rows().iter().filter(|r| r.depth == 0).map(|r| self.name_of(r.id)).collect()
    }

    /// The names of a folder's children, in order.
    fn folder_items(&self, name: &str) -> Vec<&'static str> {
        let rows = self.tree.rows();
        let id = self.id_of(name);
        let at = rows.iter().position(|r| r.id == id).expect("the folder exists");
        let depth = rows[at].depth;
        rows[at + 1..]
            .iter()
            .take_while(|r| r.depth > depth)
            .filter(|r| r.depth == depth + 1)
            .map(|r| self.name_of(r.id))
            .collect()
    }

    fn apply(&mut self, moved: &str, drop: ListDrop) -> bool {
        let id = self.id_of(moved);
        self.tree.apply_list_move(id, drop)
    }
}

#[test]
fn drop_on_a_folder_appends_the_item_to_it() {
    let mut t = fixture(vec![library_root(), folder("Marvel", vec![list("Avengers")]), list("Batman")]);
    let target = t.id_of("Marvel");
    assert!(t.apply("Batman", ListDrop::IntoFolder(target)));
    assert_eq!(t.top(), vec!["Library", "Marvel"]);
    assert_eq!(t.folder_items("Marvel"), vec!["Avengers", "Batman"]);
}

#[test]
fn drop_before_a_row_reorders_inside_one_container() {
    let mut t = fixture(vec![folder("Reading", vec![list("Alpha"), list("Beta"), list("Gamma")])]);
    let target = t.id_of("Alpha");
    assert!(t.apply("Gamma", ListDrop::BeforeItem(target)));
    assert_eq!(t.folder_items("Reading"), vec!["Gamma", "Alpha", "Beta"]);
}

#[test]
fn a_downward_move_lands_before_the_target_row() {
    let mut t = fixture(vec![list("Alpha"), list("Beta"), list("Gamma")]);
    let target = t.id_of("Gamma");
    assert!(t.apply("Alpha", ListDrop::BeforeItem(target)));
    assert_eq!(t.top(), vec!["Beta", "Alpha", "Gamma"]);
}

#[test]
fn drop_before_a_row_moves_across_containers() {
    let mut t = fixture(vec![folder("Marvel", vec![list("Avengers"), list("X-Men")]), list("Batman")]);
    let target = t.id_of("X-Men");
    assert!(t.apply("Batman", ListDrop::BeforeItem(target)));
    assert_eq!(t.top(), vec!["Marvel"]);
    assert_eq!(t.folder_items("Marvel"), vec!["Avengers", "Batman", "X-Men"]);
}

#[test]
fn a_drop_on_empty_space_moves_to_the_root_end() {
    let mut t = fixture(vec![library_root(), folder("Marvel", vec![list("Avengers")]), list("Batman")]);
    assert!(t.apply("Avengers", ListDrop::RootEnd));
    assert_eq!(t.top(), vec!["Library", "Marvel", "Batman", "Avengers"]);
    assert!(t.folder_items("Marvel").is_empty());
}

#[test]
fn a_drop_before_the_library_root_keeps_the_root_first() {
    let mut t = fixture(vec![library_root(), list("Batman")]);
    let root = t.id_of("Library");
    assert!(t.apply("Batman", ListDrop::BeforeItem(root)));
    assert_eq!(t.top(), vec!["Library", "Batman"]);
}

#[test]
fn the_library_root_never_moves() {
    let mut t = fixture(vec![library_root(), folder("Marvel", vec![])]);
    let target = t.id_of("Marvel");
    assert!(!t.apply("Library", ListDrop::IntoFolder(target)));
    assert_eq!(t.top(), vec!["Library", "Marvel"]);
}

#[test]
fn a_folder_refuses_a_drop_into_itself_or_its_subtree() {
    let mut t = fixture(vec![folder("Outer", vec![folder("Inner", vec![list("Deep")]), list("Alpha")])]);
    let outer = t.id_of("Outer");
    let inner = t.id_of("Inner");
    let deep = t.id_of("Deep");
    assert!(!t.apply("Outer", ListDrop::IntoFolder(inner)));
    assert!(!t.apply("Outer", ListDrop::BeforeItem(deep)));
    assert!(!t.apply("Outer", ListDrop::IntoFolder(outer)));
    assert_eq!(t.top(), vec!["Outer"]);
    assert_eq!(t.folder_items("Outer"), vec!["Inner", "Alpha"]);
}

#[test]
fn a_folder_moves_with_its_whole_subtree() {
    let mut t = fixture(vec![
        folder("Outer", vec![folder("Inner", vec![list("Deep")])]),
        folder("Other", vec![]),
    ]);
    let other = t.id_of("Other");
    assert!(t.apply("Inner", ListDrop::IntoFolder(other)));
    assert!(t.folder_items("Outer").is_empty());
    assert_eq!(t.folder_items("Other"), vec!["Inner"]);
    assert_eq!(t.folder_items("Inner"), vec!["Deep"]);
    let depths: Vec<usize> = t.tree.rows().iter().map(|r| r.depth).collect();
    assert_eq!(depths, vec![0, 0, 1, 2]);
}

#[test]
fn a_drop_into_a_list_or_an_unknown_row_changes_nothing() {
    let mut t = fixture(vec![list("Alpha"), list("Beta")]);
    let before: Vec<ListRow> = t.tree.rows().clone();
    let beta = t.id_of("Beta");
    assert!(!t.apply("Alpha", ListDrop::IntoFolder(beta)));
    assert!(!t.apply("Alpha", ListDrop::BeforeItem(9_999)));
    assert!(!t.tree.apply_list_move(9_999, ListDrop::RootEnd));
    assert_eq!(t.tree.rows(), &before);
}

#[test]
fn rows_that_are_not_a_tree_are_refused() {
    // A row two levels below its predecessor.
    assert!(ListTree::from_rows(vec![
        ListRow { id: 1, kind: ListKind::Folder, depth: 0 },
        ListRow { id: 2, kind: ListKind::List, depth: 2 },
    ])
    .is_none());
    // A child under a list.
    assert!(ListTree::from_rows(vec![
        ListRow { id: 1, kind: ListKind::List, depth: 0 },
        ListRow { id: 2, kind: ListKind::List, depth: 1 },
    ])
    .is_none());
    // An id twice.
    assert!(ListTree::from_rows(vec![
        ListRow { id: 1, kind: ListKind::List, depth: 0 },
        ListRow { id: 1, kind: ListKind::List, depth: 0 },
    ])
    .is_none());
    // A walk that does not start at the top.
    assert!(ListTree::from_rows(vec![ListRow { id: 1, kind: ListKind::List, depth: 1 }]).is_none());
    assert!(ListTree::from_rows(Vec::new()).is_some());
}

#[test]
fn only_the_root_is_the_library_list() {
    let t = fixture(vec![library_root(), folder("Marvel", vec![list("Avengers")])]);
    assert!(t.tree.is_library_list(t.id_of("Library")));
    assert!(!t.tree.is_library_list(t.id_of("Marvel")));
    assert!(!t.tree.is_library_list(9_999));
}

#[test]
fn folders_are_listed_in_walk_order_with_their_level() {
    let t = fixture(vec![
        library_root(),
        folder("Marvel", vec![list("Avengers"), folder("Mutants", vec![list("X-Men")])]),
        folder("DC", vec![]),
    ]);
    let folders: Vec<(&str, usize)> = t.tree.list_folders().iter().map(|(id, level)| (t.name_of(*id), *level)).collect();
    assert_eq!(folders, vec![("Marvel", 0), ("Mutants", 1), ("DC", 0)]);
}

#[test]
fn removing_a_folder_drops_its_subtree_and_the_root_stays() {
    let mut t = fixture(vec![
        library_root(),
        folder("Marvel", vec![list("Avengers"), folder("Mutants", vec![list("X-Men")])]),
        list("Batman"),
    ]);
    let marvel = t.id_of("Marvel");
    t.tree.remove_list(marvel);
    assert_eq!(t.top(), vec!["Library", "Batman"]);
    assert_eq!(t.tree.rows().len(), 2);
    let root = t.id_of("Library");
    t.tree.remove_list(root);
    assert_eq!(t.top(), vec!["Library", "Batman"]);
    t.tree.remove_list(9_999);
    assert_eq!(t.tree.rows().len(), 2);
}

#[test]
fn a_new_item_lands_by_the_selection() {
    let mut t = fixture(vec![folder("Marvel", vec![list("Avengers")]), list("Batman")]);
    let marvel = t.id_of("Marvel");
    let batman = t.id_of("Batman");
    // A selected folder takes it as its first child.
    assert!(t.tree.insert_list_item(Some(marvel), ListRow { id: 1, kind: ListKind::List, depth: 7 }));
    t.names.push((1, "New"));
    assert_eq!(t.folder_items("Marvel"), vec!["New", "Avengers"]);
    // A selected list has it right after it.
    assert!(t.tree.insert_list_item(Some(marvel + 1), ListRow { id: 2, kind: ListKind::Folder, depth: 0 }));
    t.names.push((2, "Next"));
    assert_eq!(t.folder_items("Marvel"), vec!["New", "Avengers", "Next"]);
    // Nothing selected: the end of the top level.
    assert!(t.tree.insert_list_item(None, ListRow { id: 3, kind: ListKind::List, depth: 4 }));
    t.names.push((3, "Last"));
    assert_eq!(t.top(), vec!["Marvel", "Batman", "Last"]);
    // An unknown selection, or an id already in the tree, adds nothing.
    assert!(!t.tree.insert_list_item(Some(9_999), ListRow { id: 4, kind: ListKind::List, depth: 0 }));
    assert!(!t.tree.insert_list_item(None, ListRow { id: batman, kind: ListKind::List, depth: 0 }));
    assert_eq!(t.tree.rows().len(), 6);
}
