//! The commands of the editor: the menu that offers them, the action names under
//! which they are registered, and their keyboard shortcuts.
use vstd::prelude::*;

verus! {

/// An entry of the menu: its label and the last part of its action's name.
#[derive(Debug, Clone)]
pub struct MenuItem {
    pub label: String,
    pub suffix: String,
}

/// A section of a submenu: its label (empty for none), the middle part of its
/// actions' names, and its entries.
#[derive(Debug, Clone)]
pub struct MenuSection {
    pub label: String,
    pub prefix: String,
    pub items: Vec<MenuItem>,
}

/// A submenu of the menu bar: its label, the action group of its actions, and its
/// sections.
#[derive(Debug, Clone)]
pub struct Submenu {
    pub label: String,
    pub prefix: String,
    pub sections: Vec<MenuSection>,
}

/// A keyboard shortcut: the action it triggers, by group, section and suffix,
/// and the accelerators bound to it.
#[derive(Debug, Clone)]
pub struct Shortcut {
    pub submenu: String,
    pub section: String,
    pub suffix: String,
    pub accels: Vec<String>,
}

/// An entry as plain text: label and suffix.
pub open spec fn item_view(i: MenuItem) -> (Seq<char>, Seq<char>) {
    (i.label@, i.suffix@)
}

/// A section as plain text.
pub open spec fn section_view(s: MenuSection) -> (Seq<char>, Seq<char>, Seq<(Seq<char>, Seq<char>)>) {
    (s.label@, s.prefix@, s.items@.map_values(|i: MenuItem| item_view(i)))
}

/// A submenu as plain text.
pub open spec fn submenu_view(m: Submenu) -> (
    Seq<char>,
    Seq<char>,
    Seq<(Seq<char>, Seq<char>, Seq<(Seq<char>, Seq<char>)>)>,
) {
    (m.label@, m.prefix@, m.sections@.map_values(|s: MenuSection| section_view(s)))
}

/// The menu bar as plain text.
pub open spec fn menu_view(m: Seq<Submenu>) -> Seq<
    (Seq<char>, Seq<char>, Seq<(Seq<char>, Seq<char>, Seq<(Seq<char>, Seq<char>)>)>),
> {
    m.map_values(|s: Submenu| submenu_view(s))
}

/// A shortcut as plain text.
pub open spec fn shortcut_view(s: Shortcut) -> (Seq<char>, Seq<char>, Seq<char>, Seq<Seq<char>>) {
    (s.submenu@, s.section@, s.suffix@, s.accels@.map_values(|a: String| a@))
}

/// The menu bar of the editor.
pub open spec fn menu_spec() -> Seq<
    (Seq<char>, Seq<char>, Seq<(Seq<char>, Seq<char>, Seq<(Seq<char>, Seq<char>)>)>),
> {
    seq![
        ("Проект"@, "project"@, seq![
            ("Проект"@, "project"@, seq![("Создать Новый"@, "new"@), ("Открыть"@, "open"@)]),
            ("Файл"@, "file"@, seq![("Создать Новый"@, "new"@), ("Открыть"@, "open"@), ("Сохранить"@, "save"@), ("Сохранить Все"@, "save_all"@), ("Удалить"@, "remove"@)]),
            ("Директория"@, "dir"@, seq![("Создать Новую"@, "new"@), ("Удалить"@, "remove"@)]),
            (""@, "other"@, seq![("Выход"@, "exit"@)]),
        ]),
        ("Правка"@, "edit"@, seq![
            (""@, "tab"@, seq![("Закрыть вкладку"@, "close"@), ("Закрыть все вкладки"@, "close_all"@)]),
            (""@, "undo_redo"@, seq![("Отмена"@, "undo"@), ("Заново"@, "redo"@)]),
            (""@, "ctrl_axcv"@, seq![("Выделить Все"@, "select_all"@), ("Вырезать"@, "cut"@), ("Копировать"@, "copy"@), ("Вставить"@, "paste"@)]),
            (""@, "search"@, seq![("Искать"@, "find"@), ("Заменить"@, "replace"@)]),
        ]),
        ("Pyright"@, "pyright"@, seq![
            (""@, "diagnostic"@, seq![("Диагностика Проекта"@, "project"@)]),
        ]),
        ("Запуск"@, "run"@, seq![
            (""@, "run"@, seq![("Запуск"@, "run"@), ("Использовать виртуальное окружение"@, "use_env"@)]),
        ]),
    ]
}

/// The keyboard shortcuts of the editor.
pub open spec fn shortcuts_spec() -> Seq<(Seq<char>, Seq<char>, Seq<char>, Seq<Seq<char>>)> {
    seq![
        ("project"@, "project"@, "new"@, seq!["<Ctrl><Alt>N"@]),
        ("project"@, "project"@, "open"@, seq!["<Ctrl><Alt>O"@]),
        ("project"@, "file"@, "new"@, seq!["<Ctrl>N"@]),
        ("project"@, "file"@, "open"@, seq!["<Ctrl>O"@]),
        ("project"@, "file"@, "save"@, seq!["<Ctrl>S"@]),
        ("project"@, "file"@, "save_all"@, seq!["<Ctrl><Shift>S"@]),
        ("project"@, "file"@, "remove"@, seq!["<Ctrl>R"@]),
        ("project"@, "dir"@, "new"@, seq!["<Ctrl><Shift>N"@]),
        ("project"@, "dir"@, "remove"@, seq!["<Ctrl><Shift>R"@]),
        ("project"@, "other"@, "exit"@, seq!["<Alt>F4"@]),
        ("edit"@, "tab"@, "close"@, seq!["<Ctrl>W"@]),
        ("edit"@, "tab"@, "close_all"@, seq!["<Ctrl><Shift>W"@]),
        ("edit"@, "undo_redo"@, "undo"@, seq!["<Ctrl>Z"@]),
        ("edit"@, "undo_redo"@, "redo"@, seq!["<Ctrl><Shift>Z"@]),
        ("edit"@, "ctrl_axcv"@, "select_all"@, seq!["<Ctrl>A"@]),
        ("edit"@, "ctrl_axcv"@, "cut"@, seq!["<Ctrl>X"@]),
        ("edit"@, "ctrl_axcv"@, "copy"@, seq!["<Ctrl>C"@]),
        ("edit"@, "ctrl_axcv"@, "paste"@, seq!["<Ctrl>V"@]),
        ("edit"@, "search"@, "find"@, seq!["<Ctrl>F"@]),
        ("edit"@, "search"@, "replace"@, seq!["<Ctrl>H"@]),
        ("run"@, "run"@, "run"@, seq!["<Ctrl>F5"@]),
    ]
}

fn item(label: &str, suffix: &str) -> (i: MenuItem)
    ensures
        item_view(i) == (label@, suffix@),
{
    MenuItem { label: String::from_str(label), suffix: String::from_str(suffix) }
}

/// The entries of the menu bar.
pub fn menu() -> (m: Vec<Submenu>)
    ensures
        menu_view(m@) =~~= menu_spec(),
{
    let mut m: Vec<Submenu> = Vec::new();
    let mut sections: Vec<MenuSection> = Vec::new();
    let mut items: Vec<MenuItem> = Vec::new();
    items.push(item("Создать Новый", "new"));
    items.push(item("Открыть", "open"));
    assert(items@.map_values(|i: MenuItem| item_view(i)) =~= menu_spec()[0].2[0].2);
    sections.push(MenuSection { label: String::from_str("Проект"), prefix: String::from_str("project"), items });
    let mut items: Vec<MenuItem> = Vec::new();
    items.push(item("Создать Новый", "new"));
    items.push(item("Открыть", "open"));
    items.push(item("Сохранить", "save"));
    items.push(item("Сохранить Все", "save_all"));
    items.push(item("Удалить", "remove"));
    assert(items@.map_values(|i: MenuItem| item_view(i)) =~= menu_spec()[0].2[1].2);
    sections.push(MenuSection { label: String::from_str("Файл"), prefix: String::from_str("file"), items });
    let mut items: Vec<MenuItem> = Vec::new();
    items.push(item("Создать Новую", "new"));
    items.push(item("Удалить", "remove"));
    assert(items@.map_values(|i: MenuItem| item_view(i)) =~= menu_spec()[0].2[2].2);
    sections.push(MenuSection { label: String::from_str("Директория"), prefix: String::from_str("dir"), items });
    let mut items: Vec<MenuItem> = Vec::new();
    items.push(item("Выход", "exit"));
    assert(items@.map_values(|i: MenuItem| item_view(i)) =~= menu_spec()[0].2[3].2);
    sections.push(MenuSection { label: String::from_str(""), prefix: String::from_str("other"), items });
    assert(sections@.map_values(|s: MenuSection| section_view(s)) =~~= menu_spec()[0].2);
    m.push(Submenu { label: String::from_str("Проект"), prefix: String::from_str("project"), sections });
    let mut sections: Vec<MenuSection> = Vec::new();
    let mut items: Vec<MenuItem> = Vec::new();
    items.push(item("Закрыть вкладку", "close"));
    items.push(item("Закрыть все вкладки", "close_all"));
    assert(items@.map_values(|i: MenuItem| item_view(i)) =~= menu_spec()[1].2[0].2);
    sections.push(MenuSection { label: String::from_str(""), prefix: String::from_str("tab"), items });
    let mut items: Vec<MenuItem> = Vec::new();
    items.push(item("Отмена", "undo"));
    items.push(item("Заново", "redo"));
    assert(items@.map_values(|i: MenuItem| item_view(i)) =~= menu_spec()[1].2[1].2);
    sections.push(MenuSection { label: String::from_str(""), prefix: String::from_str("undo_redo"), items });
    let mut items: Vec<MenuItem> = Vec::new();
    items.push(item("Выделить Все", "select_all"));
    items.push(item("Вырезать", "cut"));
    items.push(item("Копировать", "copy"));
    items.push(item("Вставить", "paste"));
    assert(items@.map_values(|i: MenuItem| item_view(i)) =~= menu_spec()[1].2[2].2);
    sections.push(MenuSection { label: String::from_str(""), prefix: String::from_str("ctrl_axcv"), items });
    let mut items: Vec<MenuItem> = Vec::new();
    items.push(item("Искать", "find"));
    items.push(item("Заменить", "replace"));
    assert(items@.map_values(|i: MenuItem| item_view(i)) =~= menu_spec()[1].2[3].2);
    sections.push(MenuSection { label: String::from_str(""), prefix: String::from_str("search"), items });
    assert(sections@.map_values(|s: MenuSection| section_view(s)) =~~= menu_spec()[1].2);
    m.push(Submenu { label: String::from_str("Правка"), prefix: String::from_str("edit"), sections });
    let mut sections: Vec<MenuSection> = Vec::new();
    let mut items: Vec<MenuItem> = Vec::new();
    items.push(item("Диагностика Проекта", "project"));
    assert(items@.map_values(|i: MenuItem| item_view(i)) =~= menu_spec()[2].2[0].2);
    sections.push(MenuSection { label: String::from_str(""), prefix: String::from_str("diagnostic"), items });
    assert(sections@.map_values(|s: MenuSection| section_view(s)) =~~= menu_spec()[2].2);
    m.push(Submenu { label: String::from_str("Pyright"), prefix: String::from_str("pyright"), sections });
    let mut sections: Vec<MenuSection> = Vec::new();
    let mut items: Vec<MenuItem> = Vec::new();
    items.push(item("Запуск", "run"));
    items.push(item("Использовать виртуальное окружение", "use_env"));
    assert(items@.map_values(|i: MenuItem| item_view(i)) =~= menu_spec()[3].2[0].2);
    sections.push(MenuSection { label: String::from_str(""), prefix: String::from_str("run"), items });
    assert(sections@.map_values(|s: MenuSection| section_view(s)) =~~= menu_spec()[3].2);
    m.push(Submenu { label: String::from_str("Запуск"), prefix: String::from_str("run"), sections });
    m
}

fn shortcut(submenu: &str, section: &str, suffix: &str, accels: Vec<String>) -> (s: Shortcut)
    ensures
        s.submenu@ == submenu@,
        s.section@ == section@,
        s.suffix@ == suffix@,
        s.accels == accels,
{
    Shortcut {
        submenu: String::from_str(submenu),
        section: String::from_str(section),
        suffix: String::from_str(suffix),
        accels,
    }
}

/// The keyboard shortcuts of the editor.
pub fn shortcuts() -> (s: Vec<Shortcut>)
    ensures
        s@.map_values(|x: Shortcut| shortcut_view(x)) =~~= shortcuts_spec(),
{
    let mut s: Vec<Shortcut> = Vec::new();
    let mut accels: Vec<String> = Vec::new();
    accels.push(String::from_str("<Ctrl><Alt>N"));
    assert(accels@.map_values(|a: String| a@) =~= shortcuts_spec()[0].3);
    s.push(shortcut("project", "project", "new", accels));
    let mut accels: Vec<String> = Vec::new();
    accels.push(String::from_str("<Ctrl><Alt>O"));
    assert(accels@.map_values(|a: String| a@) =~= shortcuts_spec()[1].3);
    s.push(shortcut("project", "project", "open", accels));
    let mut accels: Vec<String> = Vec::new();
    accels.push(String::from_str("<Ctrl>N"));
    assert(accels@.map_values(|a: String| a@) =~= shortcuts_spec()[2].3);
    s.push(shortcut("project", "file", "new", accels));
    let mut accels: Vec<String> = Vec::new();
    accels.push(String::from_str("<Ctrl>O"));
    assert(accels@.map_values(|a: String| a@) =~= shortcuts_spec()[3].3);
    s.push(shortcut("project", "file", "open", accels));
    let mut accels: Vec<String> = Vec::new();
    accels.push(String::from_str("<Ctrl>S"));
    assert(accels@.map_values(|a: String| a@) =~= shortcuts_spec()[4].3);
    s.push(shortcut("project", "file", "save", accels));
    let mut accels: Vec<String> = Vec::new();
    accels.push(String::from_str("<Ctrl><Shift>S"));
    assert(accels@.map_values(|a: String| a@) =~= shortcuts_spec()[5].3);
    s.push(shortcut("project", "file", "save_all", accels));
    let mut accels: Vec<String> = Vec::new();
    accels.push(String::from_str("<Ctrl>R"));
    assert(accels@.map_values(|a: String| a@) =~= shortcuts_spec()[6].3);
    s.push(shortcut("project", "file", "remove", accels));
    let mut accels: Vec<String> = Vec::new();
    accels.push(String::from_str("<Ctrl><Shift>N"));
    assert(accels@.map_values(|a: String| a@) =~= shortcuts_spec()[7].3);
    s.push(shortcut("project", "dir", "new", accels));
    let mut accels: Vec<String> = Vec::new();
    accels.push(String::from_str("<Ctrl><Shift>R"));
    assert(accels@.map_values(|a: String| a@) =~= shortcuts_spec()[8].3);
    s.push(shortcut("project", "dir", "remove", accels));
    let mut accels: Vec<String> = Vec::new();
    accels.push(String::from_str("<Alt>F4"));
    assert(accels@.map_values(|a: String| a@) =~= shortcuts_spec()[9].3);
    s.push(shortcut("project", "other", "exit", accels));
    let mut accels: Vec<String> = Vec::new();
    accels.push(String::from_str("<Ctrl>W"));
    assert(accels@.map_values(|a: String| a@) =~= shortcuts_spec()[10].3);
    s.push(shortcut("edit", "tab", "close", accels));
    let mut accels: Vec<String> = Vec::new();
    accels.push(String::from_str("<Ctrl><Shift>W"));
    assert(accels@.map_values(|a: String| a@) =~= shortcuts_spec()[11].3);
    s.push(shortcut("edit", "tab", "close_all", accels));
    let mut accels: Vec<String> = Vec::new();
    accels.push(String::from_str("<Ctrl>Z"));
    assert(accels@.map_values(|a: String| a@) =~= shortcuts_spec()[12].3);
    s.push(shortcut("edit", "undo_redo", "undo", accels));
    let mut accels: Vec<String> = Vec::new();
    accels.push(String::from_str("<Ctrl><Shift>Z"));
    assert(accels@.map_values(|a: String| a@) =~= shortcuts_spec()[13].3);
    s.push(shortcut("edit", "undo_redo", "redo", accels));
    let mut accels: Vec<String> = Vec::new();
    accels.push(String::from_str("<Ctrl>A"));
    assert(accels@.map_values(|a: String| a@) =~= shortcuts_spec()[14].3);
    s.push(shortcut("edit", "ctrl_axcv", "select_all", accels));
    let mut accels: Vec<String> = Vec::new();
    accels.push(String::from_str("<Ctrl>X"));
    assert(accels@.map_values(|a: String| a@) =~= shortcuts_spec()[15].3);
    s.push(shortcut("edit", "ctrl_axcv", "cut", accels));
    let mut accels: Vec<String> = Vec::new();
    accels.push(String::from_str("<Ctrl>C"));
    assert(accels@.map_values(|a: String| a@) =~= shortcuts_spec()[16].3);
    s.push(shortcut("edit", "ctrl_axcv", "copy", accels));
    let mut accels: Vec<String> = Vec::new();
    accels.push(String::from_str("<Ctrl>V"));
    assert(accels@.map_values(|a: String| a@) =~= shortcuts_spec()[17].3);
    s.push(shortcut("edit", "ctrl_axcv", "paste", accels));
    let mut accels: Vec<String> = Vec::new();
    accels.push(String::from_str("<Ctrl>F"));
    assert(accels@.map_values(|a: String| a@) =~= shortcuts_spec()[18].3);
    s.push(shortcut("edit", "search", "find", accels));
    let mut accels: Vec<String> = Vec::new();
    accels.push(String::from_str("<Ctrl>H"));
    assert(accels@.map_values(|a: String| a@) =~= shortcuts_spec()[19].3);
    s.push(shortcut("edit", "search", "replace", accels));
    let mut accels: Vec<String> = Vec::new();
    accels.push(String::from_str("<Ctrl>F5"));
    assert(accels@.map_values(|a: String| a@) =~= shortcuts_spec()[20].3);
    s.push(shortcut("run", "run", "run", accels));
    s
}

/// The name under which an action is registered in its group: the section and the
/// suffix, joined by two underscores.
pub fn action_name(section: &str, suffix: &str) -> (name: String)
    ensures
        name@ == section@ + "__"@ + suffix@,
{
    let mut name = String::from_str(section);
    name.append("__");
    name.append(suffix);
    name
}

/// The full name of an action, as menu entries and shortcuts refer to it: the group,
/// a dot, and the name within the group.
pub fn detailed_action_name(submenu: &str, section: &str, suffix: &str) -> (name: String)
    ensures
        name@ == submenu@ + "."@ + section@ + "__"@ + suffix@,
{
    let mut name = String::from_str(submenu);
    name.append(".");
    let inner = action_name(section, suffix);
    name.append(inner.as_str());
    name
}

/// The menu bar offers an entry for the action `submenu.section__suffix`.
pub open spec fn menu_offers(submenu: Seq<char>, section: Seq<char>, suffix: Seq<char>) -> bool {
    exists|a: int, b: int, c: int|
        0 <= a < menu_spec().len() && 0 <= b < menu_spec()[a].2.len() && 0 <= c < menu_spec()[a].2[b].2.len()
            && menu_spec()[a].1 == submenu && menu_spec()[a].2[b].1 == section
            && #[trigger] menu_spec()[a].2[b].2[c].1 == suffix
}

/// Every keyboard shortcut triggers an action that the menu bar offers.
pub proof fn lemma_shortcuts_in_menu()
    ensures
        forall|k: int|
            0 <= k < shortcuts_spec().len() ==> menu_offers(
                #[trigger] shortcuts_spec()[k].0,
                shortcuts_spec()[k].1,
                shortcuts_spec()[k].2,
            ),
{
    let m = menu_spec();
    let s = shortcuts_spec();
    assert(menu_offers(s[0].0, s[0].1, s[0].2)) by { assert(m[0].2[0].2[0].1 == s[0].2); }
    assert(menu_offers(s[1].0, s[1].1, s[1].2)) by { assert(m[0].2[0].2[1].1 == s[1].2); }
    assert(menu_offers(s[2].0, s[2].1, s[2].2)) by { assert(m[0].2[1].2[0].1 == s[2].2); }
    assert(menu_offers(s[3].0, s[3].1, s[3].2)) by { assert(m[0].2[1].2[1].1 == s[3].2); }
    assert(menu_offers(s[4].0, s[4].1, s[4].2)) by { assert(m[0].2[1].2[2].1 == s[4].2); }
    assert(menu_offers(s[5].0, s[5].1, s[5].2)) by { assert(m[0].2[1].2[3].1 == s[5].2); }
    assert(menu_offers(s[6].0, s[6].1, s[6].2)) by { assert(m[0].2[1].2[4].1 == s[6].2); }
    assert(menu_offers(s[7].0, s[7].1, s[7].2)) by { assert(m[0].2[2].2[0].1 == s[7].2); }
    assert(menu_offers(s[8].0, s[8].1, s[8].2)) by { assert(m[0].2[2].2[1].1 == s[8].2); }
    assert(menu_offers(s[9].0, s[9].1, s[9].2)) by { assert(m[0].2[3].2[0].1 == s[9].2); }
    assert(menu_offers(s[10].0, s[10].1, s[10].2)) by { assert(m[1].2[0].2[0].1 == s[10].2); }
    assert(menu_offers(s[11].0, s[11].1, s[11].2)) by { assert(m[1].2[0].2[1].1 == s[11].2); }
    assert(menu_offers(s[12].0, s[12].1, s[12].2)) by { assert(m[1].2[1].2[0].1 == s[12].2); }
    assert(menu_offers(s[13].0, s[13].1, s[13].2)) by { assert(m[1].2[1].2[1].1 == s[13].2); }
    assert(menu_offers(s[14].0, s[14].1, s[14].2)) by { assert(m[1].2[2].2[0].1 == s[14].2); }
    assert(menu_offers(s[15].0, s[15].1, s[15].2)) by { assert(m[1].2[2].2[1].1 == s[15].2); }
    assert(menu_offers(s[16].0, s[16].1, s[16].2)) by { assert(m[1].2[2].2[2].1 == s[16].2); }
    assert(menu_offers(s[17].0, s[17].1, s[17].2)) by { assert(m[1].2[2].2[3].1 == s[17].2); }
    assert(menu_offers(s[18].0, s[18].1, s[18].2)) by { assert(m[1].2[3].2[0].1 == s[18].2); }
    assert(menu_offers(s[19].0, s[19].1, s[19].2)) by { assert(m[1].2[3].2[1].1 == s[19].2); }
    assert(menu_offers(s[20].0, s[20].1, s[20].2)) by { assert(m[3].2[0].2[0].1 == s[20].2); }
    assert forall|k: int| 0 <= k < s.len() implies menu_offers(#[trigger] s[k].0, s[k].1, s[k].2) by {
        if k == 0 {
        } else if k == 1 {
        } else if k == 2 {
        } else if k == 3 {
        } else if k == 4 {
        } else if k == 5 {
        } else if k == 6 {
        } else if k == 7 {
        } else if k == 8 {
        } else if k == 9 {
        } else if k == 10 {
        } else if k == 11 {
        } else if k == 12 {
        } else if k == 13 {
        } else if k == 14 {
        } else if k == 15 {
        } else if k == 16 {
        } else if k == 17 {
        } else if k == 18 {
        } else if k == 19 {
        } else if k == 20 {
        }
    }
}

/// An entry of the menu bar, given by the positions of its submenu, its section and
/// itself.
pub open spec fn is_menu_entry(a: int, b: int, c: int) -> bool {
    &&& 0 <= a < menu_spec().len()
    &&& 0 <= b < menu_spec()[a].2.len()
    &&& 0 <= c < menu_spec()[a].2[b].2.len()
}

/// The action that an entry of the menu bar triggers: its group, its section and
/// its suffix.
pub open spec fn entry_action(a: int, b: int, c: int) -> (Seq<char>, Seq<char>, Seq<char>) {
    (menu_spec()[a].1, menu_spec()[a].2[b].1, menu_spec()[a].2[b].2[c].1)
}

/// How many entries the first `n` sections hold.
pub open spec fn entries_in_sections(
    sections: Seq<(Seq<char>, Seq<char>, Seq<(Seq<char>, Seq<char>)>)>,
    n: int,
) -> nat
    decreases n,
{
    if n <= 0 {
        0
    } else {
        entries_in_sections(sections, n - 1) + sections[n - 1].2.len()
    }
}

/// How many entries the first `n` submenus hold.
pub open spec fn entries_in_menu(
    m: Seq<(Seq<char>, Seq<char>, Seq<(Seq<char>, Seq<char>, Seq<(Seq<char>, Seq<char>)>)>)>,
    n: int,
) -> nat
    decreases n,
{
    if n <= 0 {
        0
    } else {
        entries_in_menu(m, n - 1) + entries_in_sections(m[n - 1].2, m[n - 1].2.len() as int)
    }
}

/// How many entries the menu bar has.
pub open spec fn menu_entry_count() -> nat {
    entries_in_menu(menu_spec(), menu_spec().len() as int)
}

/// The menu bar has 23 entries, no two of which trigger the same action, and it
/// offers the actions that the editor registers itself: a new file, saving a file
/// or all of them, a new directory, and the diagnosis of the project.
pub proof fn lemma_menu_entries()
    ensures
        menu_entry_count() == 23,
        forall|a: int, b: int, c: int, x: int, y: int, z: int|
            is_menu_entry(a, b, c) && is_menu_entry(x, y, z) && (a != x || b != y || c != z)
                ==> #[trigger] entry_action(a, b, c) != #[trigger] entry_action(x, y, z),
        menu_offers("project"@, "file"@, "new"@),
        menu_offers("project"@, "file"@, "save"@),
        menu_offers("project"@, "file"@, "save_all"@),
        menu_offers("project"@, "dir"@, "new"@),
        menu_offers("pyright"@, "diagnostic"@, "project"@),
{
    let m = menu_spec();
    assert(entries_in_menu(m, 0) == 0);
    assert(entries_in_sections(m[0].2, 0) == 0);
    assert(entries_in_sections(m[0].2, 1) == 2);
    assert(entries_in_sections(m[0].2, 2) == 7);
    assert(entries_in_sections(m[0].2, 3) == 9);
    assert(entries_in_sections(m[0].2, 4) == 10);
    assert(entries_in_menu(m, 1) == 10);
    assert(entries_in_sections(m[1].2, 0) == 0);
    assert(entries_in_sections(m[1].2, 1) == 2);
    assert(entries_in_sections(m[1].2, 2) == 4);
    assert(entries_in_sections(m[1].2, 3) == 8);
    assert(entries_in_sections(m[1].2, 4) == 10);
    assert(entries_in_menu(m, 2) == 20);
    assert(entries_in_sections(m[2].2, 0) == 0);
    assert(entries_in_sections(m[2].2, 1) == 1);
    assert(entries_in_menu(m, 3) == 21);
    assert(entries_in_sections(m[3].2, 0) == 0);
    assert(entries_in_sections(m[3].2, 1) == 2);
    assert(entries_in_menu(m, 4) == 23);
    assert forall|a: int, b: int, c: int, x: int, y: int, z: int|
        is_menu_entry(a, b, c) && is_menu_entry(x, y, z) && (a != x || b != y || c != z) implies #[trigger] entry_action(
        a,
        b,
        c,
    ) != #[trigger] entry_action(x, y, z) by {
        if a != x {
            lemma_submenu_prefixes_differ(a, x);
        } else if b != y {
            lemma_section_prefixes_differ(a, b, y);
        } else {
            lemma_entry_suffixes_differ(a, b, c, z);
        }
    }
    assert(m[0].2[1].2[0].1 == "new"@);
    assert(m[0].2[1].2[2].1 == "save"@);
    assert(m[0].2[1].2[3].1 == "save_all"@);
    assert(m[0].2[2].2[0].1 == "new"@);
    assert(m[2].2[0].2[0].1 == "project"@);
}

/// Two submenus have different groups.
proof fn lemma_submenu_prefixes_differ(a: int, x: int)
    requires
        0 <= a < menu_spec().len(),
        0 <= x < menu_spec().len(),
        a != x,
    ensures
        menu_spec()[a].1 != menu_spec()[x].1,
{
    let m = menu_spec();
    reveal_strlit("edit");
    reveal_strlit("project");
    reveal_strlit("pyright");
    reveal_strlit("run");
    if a == 0 && x == 1 {
        assert(m[0].1 == "project"@ && m[1].1 == "edit"@);
        assert("project"@.len() == 7 && "edit"@.len() == 4);
        assert("project"@ != "edit"@);
    } else if a == 0 && x == 2 {
        assert(m[0].1 == "project"@ && m[2].1 == "pyright"@);
        assert("project"@.len() == 7 && "pyright"@.len() == 7);
        assert("project"@[1] == 'r' && "pyright"@[1] == 'y');
        assert("project"@ != "pyright"@);
    } else if a == 0 && x == 3 {
        assert(m[0].1 == "project"@ && m[3].1 == "run"@);
        assert("project"@.len() == 7 && "run"@.len() == 3);
        assert("project"@ != "run"@);
    } else if a == 1 && x == 0 {
        assert(m[1].1 == "edit"@ && m[0].1 == "project"@);
        assert("edit"@.len() == 4 && "project"@.len() == 7);
        assert("edit"@ != "project"@);
    } else if a == 1 && x == 2 {
        assert(m[1].1 == "edit"@ && m[2].1 == "pyright"@);
        assert("edit"@.len() == 4 && "pyright"@.len() == 7);
        assert("edit"@ != "pyright"@);
    } else if a == 1 && x == 3 {
        assert(m[1].1 == "edit"@ && m[3].1 == "run"@);
        assert("edit"@.len() == 4 && "run"@.len() == 3);
        assert("edit"@ != "run"@);
    } else if a == 2 && x == 0 {
        assert(m[2].1 == "pyright"@ && m[0].1 == "project"@);
        assert("pyright"@.len() == 7 && "project"@.len() == 7);
        assert("pyright"@[1] == 'y' && "project"@[1] == 'r');
        assert("pyright"@ != "project"@);
    } else if a == 2 && x == 1 {
        assert(m[2].1 == "pyright"@ && m[1].1 == "edit"@);
        assert("pyright"@.len() == 7 && "edit"@.len() == 4);
        assert("pyright"@ != "edit"@);
    } else if a == 2 && x == 3 {
        assert(m[2].1 == "pyright"@ && m[3].1 == "run"@);
        assert("pyright"@.len() == 7 && "run"@.len() == 3);
        assert("pyright"@ != "run"@);
    } else if a == 3 && x == 0 {
        assert(m[3].1 == "run"@ && m[0].1 == "project"@);
        assert("run"@.len() == 3 && "project"@.len() == 7);
        assert("run"@ != "project"@);
    } else if a == 3 && x == 1 {
        assert(m[3].1 == "run"@ && m[1].1 == "edit"@);
        assert("run"@.len() == 3 && "edit"@.len() == 4);
        assert("run"@ != "edit"@);
    } else if a == 3 && x == 2 {
        assert(m[3].1 == "run"@ && m[2].1 == "pyright"@);
        assert("run"@.len() == 3 && "pyright"@.len() == 7);
        assert("run"@ != "pyright"@);
    }
}

/// Two sections of one submenu have different names.
proof fn lemma_section_prefixes_differ(a: int, b: int, y: int)
    requires
        0 <= a < menu_spec().len(),
        0 <= b < menu_spec()[a].2.len(),
        0 <= y < menu_spec()[a].2.len(),
        b != y,
    ensures
        menu_spec()[a].2[b].1 != menu_spec()[a].2[y].1,
{
    let m = menu_spec();
    if a == 0 {
        reveal_strlit("dir");
        reveal_strlit("file");
        reveal_strlit("other");
        reveal_strlit("project");
        if b == 0 && y == 1 {
            assert(m[0].2[0].1 == "project"@ && m[0].2[1].1 == "file"@);
            assert("project"@.len() == 7 && "file"@.len() == 4);
            assert("project"@ != "file"@);
        } else if b == 0 && y == 2 {
            assert(m[0].2[0].1 == "project"@ && m[0].2[2].1 == "dir"@);
            assert("project"@.len() == 7 && "dir"@.len() == 3);
            assert("project"@ != "dir"@);
        } else if b == 0 && y == 3 {
            assert(m[0].2[0].1 == "project"@ && m[0].2[3].1 == "other"@);
            assert("project"@.len() == 7 && "other"@.len() == 5);
            assert("project"@ != "other"@);
        } else if b == 1 && y == 0 {
            assert(m[0].2[1].1 == "file"@ && m[0].2[0].1 == "project"@);
            assert("file"@.len() == 4 && "project"@.len() == 7);
            assert("file"@ != "project"@);
        } else if b == 1 && y == 2 {
            assert(m[0].2[1].1 == "file"@ && m[0].2[2].1 == "dir"@);
            assert("file"@.len() == 4 && "dir"@.len() == 3);
            assert("file"@ != "dir"@);
        } else if b == 1 && y == 3 {
            assert(m[0].2[1].1 == "file"@ && m[0].2[3].1 == "other"@);
            assert("file"@.len() == 4 && "other"@.len() == 5);
            assert("file"@ != "other"@);
        } else if b == 2 && y == 0 {
            assert(m[0].2[2].1 == "dir"@ && m[0].2[0].1 == "project"@);
            assert("dir"@.len() == 3 && "project"@.len() == 7);
            assert("dir"@ != "project"@);
        } else if b == 2 && y == 1 {
            assert(m[0].2[2].1 == "dir"@ && m[0].2[1].1 == "file"@);
            assert("dir"@.len() == 3 && "file"@.len() == 4);
            assert("dir"@ != "file"@);
        } else if b == 2 && y == 3 {
            assert(m[0].2[2].1 == "dir"@ && m[0].2[3].1 == "other"@);
            assert("dir"@.len() == 3 && "other"@.len() == 5);
            assert("dir"@ != "other"@);
        } else if b == 3 && y == 0 {
            assert(m[0].2[3].1 == "other"@ && m[0].2[0].1 == "project"@);
            assert("other"@.len() == 5 && "project"@.len() == 7);
            assert("other"@ != "project"@);
        } else if b == 3 && y == 1 {
            assert(m[0].2[3].1 == "other"@ && m[0].2[1].1 == "file"@);
            assert("other"@.len() == 5 && "file"@.len() == 4);
            assert("other"@ != "file"@);
        } else if b == 3 && y == 2 {
            assert(m[0].2[3].1 == "other"@ && m[0].2[2].1 == "dir"@);
            assert("other"@.len() == 5 && "dir"@.len() == 3);
            assert("other"@ != "dir"@);
        }
    } else if a == 1 {
        reveal_strlit("ctrl_axcv");
        reveal_strlit("search");
        reveal_strlit("tab");
        reveal_strlit("undo_redo");
        if b == 0 && y == 1 {
            assert(m[1].2[0].1 == "tab"@ && m[1].2[1].1 == "undo_redo"@);
            assert("tab"@.len() == 3 && "undo_redo"@.len() == 9);
            assert("tab"@ != "undo_redo"@);
        } else if b == 0 && y == 2 {
            assert(m[1].2[0].1 == "tab"@ && m[1].2[2].1 == "ctrl_axcv"@);
            assert("tab"@.len() == 3 && "ctrl_axcv"@.len() == 9);
            assert("tab"@ != "ctrl_axcv"@);
        } else if b == 0 && y == 3 {
            assert(m[1].2[0].1 == "tab"@ && m[1].2[3].1 == "search"@);
            assert("tab"@.len() == 3 && "search"@.len() == 6);
            assert("tab"@ != "search"@);
        } else if b == 1 && y == 0 {
            assert(m[1].2[1].1 == "undo_redo"@ && m[1].2[0].1 == "tab"@);
            assert("undo_redo"@.len() == 9 && "tab"@.len() == 3);
            assert("undo_redo"@ != "tab"@);
        } else if b == 1 && y == 2 {
            assert(m[1].2[1].1 == "undo_redo"@ && m[1].2[2].1 == "ctrl_axcv"@);
            assert("undo_redo"@.len() == 9 && "ctrl_axcv"@.len() == 9);
            assert("undo_redo"@[0] == 'u' && "ctrl_axcv"@[0] == 'c');
            assert("undo_redo"@ != "ctrl_axcv"@);
        } else if b == 1 && y == 3 {
            assert(m[1].2[1].1 == "undo_redo"@ && m[1].2[3].1 == "search"@);
            assert("undo_redo"@.len() == 9 && "search"@.len() == 6);
            assert("undo_redo"@ != "search"@);
        } else if b == 2 && y == 0 {
            assert(m[1].2[2].1 == "ctrl_axcv"@ && m[1].2[0].1 == "tab"@);
            assert("ctrl_axcv"@.len() == 9 && "tab"@.len() == 3);
            assert("ctrl_axcv"@ != "tab"@);
        } else if b == 2 && y == 1 {
            assert(m[1].2[2].1 == "ctrl_axcv"@ && m[1].2[1].1 == "undo_redo"@);
            assert("ctrl_axcv"@.len() == 9 && "undo_redo"@.len() == 9);
            assert("ctrl_axcv"@[0] == 'c' && "undo_redo"@[0] == 'u');
            assert("ctrl_axcv"@ != "undo_redo"@);
        } else if b == 2 && y == 3 {
            assert(m[1].2[2].1 == "ctrl_axcv"@ && m[1].2[3].1 == "search"@);
            assert("ctrl_axcv"@.len() == 9 && "search"@.len() == 6);
            assert("ctrl_axcv"@ != "search"@);
        } else if b == 3 && y == 0 {
            assert(m[1].2[3].1 == "search"@ && m[1].2[0].1 == "tab"@);
            assert("search"@.len() == 6 && "tab"@.len() == 3);
            assert("search"@ != "tab"@);
        } else if b == 3 && y == 1 {
            assert(m[1].2[3].1 == "search"@ && m[1].2[1].1 == "undo_redo"@);
            assert("search"@.len() == 6 && "undo_redo"@.len() == 9);
            assert("search"@ != "undo_redo"@);
        } else if b == 3 && y == 2 {
            assert(m[1].2[3].1 == "search"@ && m[1].2[2].1 == "ctrl_axcv"@);
            assert("search"@.len() == 6 && "ctrl_axcv"@.len() == 9);
            assert("search"@ != "ctrl_axcv"@);
        }
    }
}

/// Two entries of one section have different suffixes.
proof fn lemma_entry_suffixes_differ(a: int, b: int, c: int, z: int)
    requires
        0 <= a < menu_spec().len(),
        0 <= b < menu_spec()[a].2.len(),
        0 <= c < menu_spec()[a].2[b].2.len(),
        0 <= z < menu_spec()[a].2[b].2.len(),
        c != z,
    ensures
        menu_spec()[a].2[b].2[c].1 != menu_spec()[a].2[b].2[z].1,
{
    let m = menu_spec();
    if a == 0 && b == 0 {
        reveal_strlit("new");
        reveal_strlit("open");
        if c == 0 && z == 1 {
            assert(m[0].2[0].2[0].1 == "new"@ && m[0].2[0].2[1].1 == "open"@);
            assert("new"@.len() == 3 && "open"@.len() == 4);
            assert("new"@ != "open"@);
        } else if c == 1 && z == 0 {
            assert(m[0].2[0].2[1].1 == "open"@ && m[0].2[0].2[0].1 == "new"@);
            assert("open"@.len() == 4 && "new"@.len() == 3);
            assert("open"@ != "new"@);
        }
    } else if a == 0 && b == 1 {
        reveal_strlit("new");
        reveal_strlit("open");
        reveal_strlit("remove");
        reveal_strlit("save");
        reveal_strlit("save_all");
        if c == 0 && z == 1 {
            assert(m[0].2[1].2[0].1 == "new"@ && m[0].2[1].2[1].1 == "open"@);
            assert("new"@.len() == 3 && "open"@.len() == 4);
            assert("new"@ != "open"@);
        } else if c == 0 && z == 2 {
            assert(m[0].2[1].2[0].1 == "new"@ && m[0].2[1].2[2].1 == "save"@);
            assert("new"@.len() == 3 && "save"@.len() == 4);
            assert("new"@ != "save"@);
        } else if c == 0 && z == 3 {
            assert(m[0].2[1].2[0].1 == "new"@ && m[0].2[1].2[3].1 == "save_all"@);
            assert("new"@.len() == 3 && "save_all"@.len() == 8);
            assert("new"@ != "save_all"@);
        } else if c == 0 && z == 4 {
            assert(m[0].2[1].2[0].1 == "new"@ && m[0].2[1].2[4].1 == "remove"@);
            assert("new"@.len() == 3 && "remove"@.len() == 6);
            assert("new"@ != "remove"@);
        } else if c == 1 && z == 0 {
            assert(m[0].2[1].2[1].1 == "open"@ && m[0].2[1].2[0].1 == "new"@);
            assert("open"@.len() == 4 && "new"@.len() == 3);
            assert("open"@ != "new"@);
        } else if c == 1 && z == 2 {
            assert(m[0].2[1].2[1].1 == "open"@ && m[0].2[1].2[2].1 == "save"@);
            assert("open"@.len() == 4 && "save"@.len() == 4);
            assert("open"@[0] == 'o' && "save"@[0] == 's');
            assert("open"@ != "save"@);
        } else if c == 1 && z == 3 {
            assert(m[0].2[1].2[1].1 == "open"@ && m[0].2[1].2[3].1 == "save_all"@);
            assert("open"@.len() == 4 && "save_all"@.len() == 8);
            assert("open"@ != "save_all"@);
        } else if c == 1 && z == 4 {
            assert(m[0].2[1].2[1].1 == "open"@ && m[0].2[1].2[4].1 == "remove"@);
            assert("open"@.len() == 4 && "remove"@.len() == 6);
            assert("open"@ != "remove"@);
        } else if c == 2 && z == 0 {
            assert(m[0].2[1].2[2].1 == "save"@ && m[0].2[1].2[0].1 == "new"@);
            assert("save"@.len() == 4 && "new"@.len() == 3);
            assert("save"@ != "new"@);
        } else if c == 2 && z == 1 {
            assert(m[0].2[1].2[2].1 == "save"@ && m[0].2[1].2[1].1 == "open"@);
            assert("save"@.len() == 4 && "open"@.len() == 4);
            assert("save"@[0] == 's' && "open"@[0] == 'o');
            assert("save"@ != "open"@);
        } else if c == 2 && z == 3 {
            assert(m[0].2[1].2[2].1 == "save"@ && m[0].2[1].2[3].1 == "save_all"@);
            assert("save"@.len() == 4 && "save_all"@.len() == 8);
            assert("save"@ != "save_all"@);
        } else if c == 2 && z == 4 {
            assert(m[0].2[1].2[2].1 == "save"@ && m[0].2[1].2[4].1 == "remove"@);
            assert("save"@.len() == 4 && "remove"@.len() == 6);
            assert("save"@ != "remove"@);
        } else if c == 3 && z == 0 {
            assert(m[0].2[1].2[3].1 == "save_all"@ && m[0].2[1].2[0].1 == "new"@);
            assert("save_all"@.len() == 8 && "new"@.len() == 3);
            assert("save_all"@ != "new"@);
        } else if c == 3 && z == 1 {
            assert(m[0].2[1].2[3].1 == "save_all"@ && m[0].2[1].2[1].1 == "open"@);
            assert("save_all"@.len() == 8 && "open"@.len() == 4);
            assert("save_all"@ != "open"@);
        } else if c == 3 && z == 2 {
            assert(m[0].2[1].2[3].1 == "save_all"@ && m[0].2[1].2[2].1 == "save"@);
            assert("save_all"@.len() == 8 && "save"@.len() == 4);
            assert("save_all"@ != "save"@);
        } else if c == 3 && z == 4 {
            assert(m[0].2[1].2[3].1 == "save_all"@ && m[0].2[1].2[4].1 == "remove"@);
            assert("save_all"@.len() == 8 && "remove"@.len() == 6);
            assert("save_all"@ != "remove"@);
        } else if c == 4 && z == 0 {
            assert(m[0].2[1].2[4].1 == "remove"@ && m[0].2[1].2[0].1 == "new"@);
            assert("remove"@.len() == 6 && "new"@.len() == 3);
            assert("remove"@ != "new"@);
        } else if c == 4 && z == 1 {
            assert(m[0].2[1].2[4].1 == "remove"@ && m[0].2[1].2[1].1 == "open"@);
            assert("remove"@.len() == 6 && "open"@.len() == 4);
            assert("remove"@ != "open"@);
        } else if c == 4 && z == 2 {
            assert(m[0].2[1].2[4].1 == "remove"@ && m[0].2[1].2[2].1 == "save"@);
            assert("remove"@.len() == 6 && "save"@.len() == 4);
            assert("remove"@ != "save"@);
        } else if c == 4 && z == 3 {
            assert(m[0].2[1].2[4].1 == "remove"@ && m[0].2[1].2[3].1 == "save_all"@);
            assert("remove"@.len() == 6 && "save_all"@.len() == 8);
            assert("remove"@ != "save_all"@);
        }
    } else if a == 0 && b == 2 {
        reveal_strlit("new");
        reveal_strlit("remove");
        if c == 0 && z == 1 {
            assert(m[0].2[2].2[0].1 == "new"@ && m[0].2[2].2[1].1 == "remove"@);
            assert("new"@.len() == 3 && "remove"@.len() == 6);
            assert("new"@ != "remove"@);
        } else if c == 1 && z == 0 {
            assert(m[0].2[2].2[1].1 == "remove"@ && m[0].2[2].2[0].1 == "new"@);
            assert("remove"@.len() == 6 && "new"@.len() == 3);
            assert("remove"@ != "new"@);
        }
    } else if a == 1 && b == 0 {
        reveal_strlit("close");
        reveal_strlit("close_all");
        if c == 0 && z == 1 {
            assert(m[1].2[0].2[0].1 == "close"@ && m[1].2[0].2[1].1 == "close_all"@);
            assert("close"@.len() == 5 && "close_all"@.len() == 9);
            assert("close"@ != "close_all"@);
        } else if c == 1 && z == 0 {
            assert(m[1].2[0].2[1].1 == "close_all"@ && m[1].2[0].2[0].1 == "close"@);
            assert("close_all"@.len() == 9 && "close"@.len() == 5);
            assert("close_all"@ != "close"@);
        }
    } else if a == 1 && b == 1 {
        reveal_strlit("redo");
        reveal_strlit("undo");
        if c == 0 && z == 1 {
            assert(m[1].2[1].2[0].1 == "undo"@ && m[1].2[1].2[1].1 == "redo"@);
            assert("undo"@.len() == 4 && "redo"@.len() == 4);
            assert("undo"@[0] == 'u' && "redo"@[0] == 'r');
            assert("undo"@ != "redo"@);
        } else if c == 1 && z == 0 {
            assert(m[1].2[1].2[1].1 == "redo"@ && m[1].2[1].2[0].1 == "undo"@);
            assert("redo"@.len() == 4 && "undo"@.len() == 4);
            assert("redo"@[0] == 'r' && "undo"@[0] == 'u');
            assert("redo"@ != "undo"@);
        }
    } else if a == 1 && b == 2 {
        reveal_strlit("copy");
        reveal_strlit("cut");
        reveal_strlit("paste");
        reveal_strlit("select_all");
        if c == 0 && z == 1 {
            assert(m[1].2[2].2[0].1 == "select_all"@ && m[1].2[2].2[1].1 == "cut"@);
            assert("select_all"@.len() == 10 && "cut"@.len() == 3);
            assert("select_all"@ != "cut"@);
        } else if c == 0 && z == 2 {
            assert(m[1].2[2].2[0].1 == "select_all"@ && m[1].2[2].2[2].1 == "copy"@);
            assert("select_all"@.len() == 10 && "copy"@.len() == 4);
            assert("select_all"@ != "copy"@);
        } else if c == 0 && z == 3 {
            assert(m[1].2[2].2[0].1 == "select_all"@ && m[1].2[2].2[3].1 == "paste"@);
            assert("select_all"@.len() == 10 && "paste"@.len() == 5);
            assert("select_all"@ != "paste"@);
        } else if c == 1 && z == 0 {
            assert(m[1].2[2].2[1].1 == "cut"@ && m[1].2[2].2[0].1 == "select_all"@);
            assert("cut"@.len() == 3 && "select_all"@.len() == 10);
            assert("cut"@ != "select_all"@);
        } else if c == 1 && z == 2 {
            assert(m[1].2[2].2[1].1 == "cut"@ && m[1].2[2].2[2].1 == "copy"@);
            assert("cut"@.len() == 3 && "copy"@.len() == 4);
            assert("cut"@ != "copy"@);
        } else if c == 1 && z == 3 {
            assert(m[1].2[2].2[1].1 == "cut"@ && m[1].2[2].2[3].1 == "paste"@);
            assert("cut"@.len() == 3 && "paste"@.len() == 5);
            assert("cut"@ != "paste"@);
        } else if c == 2 && z == 0 {
            assert(m[1].2[2].2[2].1 == "copy"@ && m[1].2[2].2[0].1 == "select_all"@);
            assert("copy"@.len() == 4 && "select_all"@.len() == 10);
            assert("copy"@ != "select_all"@);
        } else if c == 2 && z == 1 {
            assert(m[1].2[2].2[2].1 == "copy"@ && m[1].2[2].2[1].1 == "cut"@);
            assert("copy"@.len() == 4 && "cut"@.len() == 3);
            assert("copy"@ != "cut"@);
        } else if c == 2 && z == 3 {
            assert(m[1].2[2].2[2].1 == "copy"@ && m[1].2[2].2[3].1 == "paste"@);
            assert("copy"@.len() == 4 && "paste"@.len() == 5);
            assert("copy"@ != "paste"@);
        } else if c == 3 && z == 0 {
            assert(m[1].2[2].2[3].1 == "paste"@ && m[1].2[2].2[0].1 == "select_all"@);
            assert("paste"@.len() == 5 && "select_all"@.len() == 10);
            assert("paste"@ != "select_all"@);
        } else if c == 3 && z == 1 {
            assert(m[1].2[2].2[3].1 == "paste"@ && m[1].2[2].2[1].1 == "cut"@);
            assert("paste"@.len() == 5 && "cut"@.len() == 3);
            assert("paste"@ != "cut"@);
        } else if c == 3 && z == 2 {
            assert(m[1].2[2].2[3].1 == "paste"@ && m[1].2[2].2[2].1 == "copy"@);
            assert("paste"@.len() == 5 && "copy"@.len() == 4);
            assert("paste"@ != "copy"@);
        }
    } else if a == 1 && b == 3 {
        reveal_strlit("find");
        reveal_strlit("replace");
        if c == 0 && z == 1 {
            assert(m[1].2[3].2[0].1 == "find"@ && m[1].2[3].2[1].1 == "replace"@);
            assert("find"@.len() == 4 && "replace"@.len() == 7);
            assert("find"@ != "replace"@);
        } else if c == 1 && z == 0 {
            assert(m[1].2[3].2[1].1 == "replace"@ && m[1].2[3].2[0].1 == "find"@);
            assert("replace"@.len() == 7 && "find"@.len() == 4);
            assert("replace"@ != "find"@);
        }
    } else if a == 3 && b == 0 {
        reveal_strlit("run");
        reveal_strlit("use_env");
        if c == 0 && z == 1 {
            assert(m[3].2[0].2[0].1 == "run"@ && m[3].2[0].2[1].1 == "use_env"@);
            assert("run"@.len() == 3 && "use_env"@.len() == 7);
            assert("run"@ != "use_env"@);
        } else if c == 1 && z == 0 {
            assert(m[3].2[0].2[1].1 == "use_env"@ && m[3].2[0].2[0].1 == "run"@);
            assert("use_env"@.len() == 7 && "run"@.len() == 3);
            assert("use_env"@ != "run"@);
        }
    }
}

/// The submenu of the group `submenu` is labelled `label`.
pub open spec fn submenu_labelled(submenu: Seq<char>, label: Seq<char>) -> bool {
    exists|a: int|
        #![trigger menu_spec()[a]]
        0 <= a < menu_spec().len() && menu_spec()[a].1 == submenu && menu_spec()[a].0 == label
}

/// The section `section` of the group `submenu` is labelled `label`.
pub open spec fn section_labelled(submenu: Seq<char>, section: Seq<char>, label: Seq<char>) -> bool {
    exists|a: int, b: int|
        #![trigger menu_spec()[a].2[b]]
        0 <= a < menu_spec().len() && 0 <= b < menu_spec()[a].2.len() && menu_spec()[a].1 == submenu
            && menu_spec()[a].2[b].1 == section && menu_spec()[a].2[b].0 == label
}

/// The entry of the menu bar for the action `submenu.section__suffix` is labelled
/// `label`.
pub open spec fn entry_labelled(submenu: Seq<char>, section: Seq<char>, suffix: Seq<char>, label: Seq<char>) -> bool {
    exists|a: int, b: int, c: int|
        is_menu_entry(a, b, c) && #[trigger] entry_action(a, b, c) == (submenu, section, suffix)
            && menu_spec()[a].2[b].2[c].0 == label
}

/// Each submenu, section and entry of the menu bar carries its own label, entries
/// being told apart by the action they trigger: Отмена (undo) undoes, Заново (redo)
/// redoes, and so on for every entry. With `lemma_menu_entries`, which gives each
/// action one entry, this fixes the label of every action.
pub proof fn lemma_menu_labels()
    ensures
        submenu_labelled("project"@, "Проект"@),
        submenu_labelled("edit"@, "Правка"@),
        submenu_labelled("pyright"@, "Pyright"@),
        submenu_labelled("run"@, "Запуск"@),
        section_labelled("project"@, "project"@, "Проект"@),
        section_labelled("project"@, "file"@, "Файл"@),
        section_labelled("project"@, "dir"@, "Директория"@),
        section_labelled("project"@, "other"@, ""@),
        section_labelled("edit"@, "tab"@, ""@),
        section_labelled("edit"@, "undo_redo"@, ""@),
        section_labelled("edit"@, "ctrl_axcv"@, ""@),
        section_labelled("edit"@, "search"@, ""@),
        section_labelled("pyright"@, "diagnostic"@, ""@),
        section_labelled("run"@, "run"@, ""@),
        entry_labelled("project"@, "project"@, "new"@, "Создать Новый"@),
        entry_labelled("project"@, "project"@, "open"@, "Открыть"@),
        entry_labelled("project"@, "file"@, "new"@, "Создать Новый"@),
        entry_labelled("project"@, "file"@, "open"@, "Открыть"@),
        entry_labelled("project"@, "file"@, "save"@, "Сохранить"@),
        entry_labelled("project"@, "file"@, "save_all"@, "Сохранить Все"@),
        entry_labelled("project"@, "file"@, "remove"@, "Удалить"@),
        entry_labelled("project"@, "dir"@, "new"@, "Создать Новую"@),
        entry_labelled("project"@, "dir"@, "remove"@, "Удалить"@),
        entry_labelled("project"@, "other"@, "exit"@, "Выход"@),
        entry_labelled("edit"@, "tab"@, "close"@, "Закрыть вкладку"@),
        entry_labelled("edit"@, "tab"@, "close_all"@, "Закрыть все вкладки"@),
        entry_labelled("edit"@, "undo_redo"@, "undo"@, "Отмена"@),
        entry_labelled("edit"@, "undo_redo"@, "redo"@, "Заново"@),
        entry_labelled("edit"@, "ctrl_axcv"@, "select_all"@, "Выделить Все"@),
        entry_labelled("edit"@, "ctrl_axcv"@, "cut"@, "Вырезать"@),
        entry_labelled("edit"@, "ctrl_axcv"@, "copy"@, "Копировать"@),
        entry_labelled("edit"@, "ctrl_axcv"@, "paste"@, "Вставить"@),
        entry_labelled("edit"@, "search"@, "find"@, "Искать"@),
        entry_labelled("edit"@, "search"@, "replace"@, "Заменить"@),
        entry_labelled("pyright"@, "diagnostic"@, "project"@, "Диагностика Проекта"@),
        entry_labelled("run"@, "run"@, "run"@, "Запуск"@),
        entry_labelled("run"@, "run"@, "use_env"@, "Использовать виртуальное окружение"@),
{
    let m = menu_spec();
    assert(m[0].1 == "project"@ && m[0].0 == "Проект"@);
    assert(m[1].1 == "edit"@ && m[1].0 == "Правка"@);
    assert(m[2].1 == "pyright"@ && m[2].0 == "Pyright"@);
    assert(m[3].1 == "run"@ && m[3].0 == "Запуск"@);
    assert(m[0].2[0].1 == "project"@ && m[0].2[0].0 == "Проект"@);
    assert(m[0].2[1].1 == "file"@ && m[0].2[1].0 == "Файл"@);
    assert(m[0].2[2].1 == "dir"@ && m[0].2[2].0 == "Директория"@);
    assert(m[0].2[3].1 == "other"@ && m[0].2[3].0 == ""@);
    assert(m[1].2[0].1 == "tab"@ && m[1].2[0].0 == ""@);
    assert(m[1].2[1].1 == "undo_redo"@ && m[1].2[1].0 == ""@);
    assert(m[1].2[2].1 == "ctrl_axcv"@ && m[1].2[2].0 == ""@);
    assert(m[1].2[3].1 == "search"@ && m[1].2[3].0 == ""@);
    assert(m[2].2[0].1 == "diagnostic"@ && m[2].2[0].0 == ""@);
    assert(m[3].2[0].1 == "run"@ && m[3].2[0].0 == ""@);
    assert(entry_action(0, 0, 0) == ("project"@, "project"@, "new"@) && m[0].2[0].2[0].0 == "Создать Новый"@);
    assert(entry_action(0, 0, 1) == ("project"@, "project"@, "open"@) && m[0].2[0].2[1].0 == "Открыть"@);
    assert(entry_action(0, 1, 0) == ("project"@, "file"@, "new"@) && m[0].2[1].2[0].0 == "Создать Новый"@);
    assert(entry_action(0, 1, 1) == ("project"@, "file"@, "open"@) && m[0].2[1].2[1].0 == "Открыть"@);
    assert(entry_action(0, 1, 2) == ("project"@, "file"@, "save"@) && m[0].2[1].2[2].0 == "Сохранить"@);
    assert(entry_action(0, 1, 3) == ("project"@, "file"@, "save_all"@) && m[0].2[1].2[3].0 == "Сохранить Все"@);
    assert(entry_action(0, 1, 4) == ("project"@, "file"@, "remove"@) && m[0].2[1].2[4].0 == "Удалить"@);
    assert(entry_action(0, 2, 0) == ("project"@, "dir"@, "new"@) && m[0].2[2].2[0].0 == "Создать Новую"@);
    assert(entry_action(0, 2, 1) == ("project"@, "dir"@, "remove"@) && m[0].2[2].2[1].0 == "Удалить"@);
    assert(entry_action(0, 3, 0) == ("project"@, "other"@, "exit"@) && m[0].2[3].2[0].0 == "Выход"@);
    assert(entry_action(1, 0, 0) == ("edit"@, "tab"@, "close"@) && m[1].2[0].2[0].0 == "Закрыть вкладку"@);
    assert(entry_action(1, 0, 1) == ("edit"@, "tab"@, "close_all"@) && m[1].2[0].2[1].0 == "Закрыть все вкладки"@);
    assert(entry_action(1, 1, 0) == ("edit"@, "undo_redo"@, "undo"@) && m[1].2[1].2[0].0 == "Отмена"@);
    assert(entry_action(1, 1, 1) == ("edit"@, "undo_redo"@, "redo"@) && m[1].2[1].2[1].0 == "Заново"@);
    assert(entry_action(1, 2, 0) == ("edit"@, "ctrl_axcv"@, "select_all"@) && m[1].2[2].2[0].0 == "Выделить Все"@);
    assert(entry_action(1, 2, 1) == ("edit"@, "ctrl_axcv"@, "cut"@) && m[1].2[2].2[1].0 == "Вырезать"@);
    assert(entry_action(1, 2, 2) == ("edit"@, "ctrl_axcv"@, "copy"@) && m[1].2[2].2[2].0 == "Копировать"@);
    assert(entry_action(1, 2, 3) == ("edit"@, "ctrl_axcv"@, "paste"@) && m[1].2[2].2[3].0 == "Вставить"@);
    assert(entry_action(1, 3, 0) == ("edit"@, "search"@, "find"@) && m[1].2[3].2[0].0 == "Искать"@);
    assert(entry_action(1, 3, 1) == ("edit"@, "search"@, "replace"@) && m[1].2[3].2[1].0 == "Заменить"@);
    assert(entry_action(2, 0, 0) == ("pyright"@, "diagnostic"@, "project"@) && m[2].2[0].2[0].0 == "Диагностика Проекта"@);
    assert(entry_action(3, 0, 0) == ("run"@, "run"@, "run"@) && m[3].2[0].2[0].0 == "Запуск"@);
    assert(entry_action(3, 0, 1) == ("run"@, "run"@, "use_env"@) && m[3].2[0].2[1].0 == "Использовать виртуальное окружение"@);
}

/// The shortcut table binds exactly the keys `accels` to the action
/// `submenu.section__suffix`.
pub open spec fn shortcut_binds(submenu: Seq<char>, section: Seq<char>, suffix: Seq<char>, accels: Seq<Seq<char>>) -> bool {
    exists|k: int|
        0 <= k < shortcuts_spec().len() && #[trigger] shortcuts_spec()[k] == (submenu, section, suffix, accels)
}

/// The keyboard shortcuts: 21 bindings, the keys of each action as the editor
/// binds them; among them <Ctrl>Z undoes and <Ctrl><Shift>Z redoes. The table has no
/// other entry.
pub proof fn lemma_shortcut_bindings()
    ensures
        shortcuts_spec().len() == 21,
        shortcut_binds("project"@, "project"@, "new"@, seq!["<Ctrl><Alt>N"@]),
        shortcut_binds("project"@, "project"@, "open"@, seq!["<Ctrl><Alt>O"@]),
        shortcut_binds("project"@, "file"@, "new"@, seq!["<Ctrl>N"@]),
        shortcut_binds("project"@, "file"@, "open"@, seq!["<Ctrl>O"@]),
        shortcut_binds("project"@, "file"@, "save"@, seq!["<Ctrl>S"@]),
        shortcut_binds("project"@, "file"@, "save_all"@, seq!["<Ctrl><Shift>S"@]),
        shortcut_binds("project"@, "file"@, "remove"@, seq!["<Ctrl>R"@]),
        shortcut_binds("project"@, "dir"@, "new"@, seq!["<Ctrl><Shift>N"@]),
        shortcut_binds("project"@, "dir"@, "remove"@, seq!["<Ctrl><Shift>R"@]),
        shortcut_binds("project"@, "other"@, "exit"@, seq!["<Alt>F4"@]),
        shortcut_binds("edit"@, "tab"@, "close"@, seq!["<Ctrl>W"@]),
        shortcut_binds("edit"@, "tab"@, "close_all"@, seq!["<Ctrl><Shift>W"@]),
        shortcut_binds("edit"@, "undo_redo"@, "undo"@, seq!["<Ctrl>Z"@]),
        shortcut_binds("edit"@, "undo_redo"@, "redo"@, seq!["<Ctrl><Shift>Z"@]),
        shortcut_binds("edit"@, "ctrl_axcv"@, "select_all"@, seq!["<Ctrl>A"@]),
        shortcut_binds("edit"@, "ctrl_axcv"@, "cut"@, seq!["<Ctrl>X"@]),
        shortcut_binds("edit"@, "ctrl_axcv"@, "copy"@, seq!["<Ctrl>C"@]),
        shortcut_binds("edit"@, "ctrl_axcv"@, "paste"@, seq!["<Ctrl>V"@]),
        shortcut_binds("edit"@, "search"@, "find"@, seq!["<Ctrl>F"@]),
        shortcut_binds("edit"@, "search"@, "replace"@, seq!["<Ctrl>H"@]),
        shortcut_binds("run"@, "run"@, "run"@, seq!["<Ctrl>F5"@]),
{
    let s = shortcuts_spec();
    assert(s[0] == ("project"@, "project"@, "new"@, seq!["<Ctrl><Alt>N"@]));
    assert(s[1] == ("project"@, "project"@, "open"@, seq!["<Ctrl><Alt>O"@]));
    assert(s[2] == ("project"@, "file"@, "new"@, seq!["<Ctrl>N"@]));
    assert(s[3] == ("project"@, "file"@, "open"@, seq!["<Ctrl>O"@]));
    assert(s[4] == ("project"@, "file"@, "save"@, seq!["<Ctrl>S"@]));
    assert(s[5] == ("project"@, "file"@, "save_all"@, seq!["<Ctrl><Shift>S"@]));
    assert(s[6] == ("project"@, "file"@, "remove"@, seq!["<Ctrl>R"@]));
    assert(s[7] == ("project"@, "dir"@, "new"@, seq!["<Ctrl><Shift>N"@]));
    assert(s[8] == ("project"@, "dir"@, "remove"@, seq!["<Ctrl><Shift>R"@]));
    assert(s[9] == ("project"@, "other"@, "exit"@, seq!["<Alt>F4"@]));
    assert(s[10] == ("edit"@, "tab"@, "close"@, seq!["<Ctrl>W"@]));
    assert(s[11] == ("edit"@, "tab"@, "close_all"@, seq!["<Ctrl><Shift>W"@]));
    assert(s[12] == ("edit"@, "undo_redo"@, "undo"@, seq!["<Ctrl>Z"@]));
    assert(s[13] == ("edit"@, "undo_redo"@, "redo"@, seq!["<Ctrl><Shift>Z"@]));
    assert(s[14] == ("edit"@, "ctrl_axcv"@, "select_all"@, seq!["<Ctrl>A"@]));
    assert(s[15] == ("edit"@, "ctrl_axcv"@, "cut"@, seq!["<Ctrl>X"@]));
    assert(s[16] == ("edit"@, "ctrl_axcv"@, "copy"@, seq!["<Ctrl>C"@]));
    assert(s[17] == ("edit"@, "ctrl_axcv"@, "paste"@, seq!["<Ctrl>V"@]));
    assert(s[18] == ("edit"@, "search"@, "find"@, seq!["<Ctrl>F"@]));
    assert(s[19] == ("edit"@, "search"@, "replace"@, seq!["<Ctrl>H"@]));
    assert(s[20] == ("run"@, "run"@, "run"@, seq!["<Ctrl>F5"@]));
}

} // verus!
