use encode::app_type::{define_app_id, define_app_type, AppType};
use encode::commands::{action_name, detailed_action_name, menu, shortcuts};
use encode::editor::{cursor_label, find_tab};
use encode::theme::{color_scheme_name, hex_color, recolor_svg, recolor_svg_fill, search_icon_name, svg_file_name};

fn strings(v: &[&str]) -> Vec<String> {
    v.iter().map(|s| s.to_string()).collect()
}

#[test]
fn app_type_from_arguments() {
    assert!(matches!(define_app_type(&strings(&["encode"])), AppType::LAUNCHER));
    match define_app_type(&strings(&["encode", "/home/u/proj"])) {
        AppType::EDITOR(dir) => assert_eq!(dir, "/home/u/proj"),
        AppType::LAUNCHER => panic!("expected the editor"),
    }
}

#[test]
fn app_ids() {
    assert_eq!(define_app_id(&AppType::LAUNCHER), "EnCode.launcher");
    assert_eq!(define_app_id(&AppType::EDITOR("x".to_string())), "EnCode.editor");
}

#[test]
fn hex_colors_match_format() {
    for (r, g, b) in [(0u8, 0u8, 0u8), (255, 255, 255), (255, 0, 16), (9, 171, 205)] {
        assert_eq!(hex_color(r, g, b), format!("{:02x}{:02x}{:02x}", r, g, b));
    }
}

#[test]
fn theme_names() {
    assert_eq!(color_scheme_name(true), "encode-dark");
    assert_eq!(color_scheme_name(false), "Adwaita");
    assert_eq!(search_icon_name("1e1e1e"), "encode-1e1e1e");
    assert_eq!(svg_file_name("encode-1e1e1e"), "encode-1e1e1e.svg");
}

#[test]
fn icons_are_recolored() {
    let svg = "<path stroke=\"black\" fill=\"black\"/><g fill=\"none\"/>";
    assert_eq!(recolor_svg(svg, "ffffff"), "<path stroke=\"#ffffff\" fill=\"#ffffff\"/><g fill=\"none\"/>");
    assert_eq!(recolor_svg_fill(svg, "ffffff"), "<path stroke=\"black\" fill=\"#ffffff\"/><g fill=\"none\"/>");
    assert_eq!(recolor_svg("<svg/>", "ffffff"), "<svg/>");
}

#[test]
fn tabs_are_found_by_label() {
    let labels = strings(&["src/main.py", "README.md", "src/main.py"]);
    assert_eq!(find_tab(&labels, "src/main.py"), Some(0));
    assert_eq!(find_tab(&labels, "README.md"), Some(1));
    assert_eq!(find_tab(&labels, "setup.py"), None);
    assert_eq!(find_tab(&vec![], "a"), None);
}

#[test]
fn cursor_position_label() {
    assert_eq!(cursor_label(0, 0), "1:0");
    assert_eq!(cursor_label(41, 7), "42:7");
}

#[test]
fn action_names() {
    assert_eq!(action_name("file", "save"), "file__save");
    assert_eq!(detailed_action_name("project", "file", "save_all"), "project.file__save_all");
}

#[test]
fn menu_layout() {
    let m = menu();
    let labels: Vec<&str> = m.iter().map(|s| s.label.as_str()).collect();
    assert_eq!(labels, vec!["Проект", "Правка", "Pyright", "Запуск"]);
    let prefixes: Vec<&str> = m.iter().map(|s| s.prefix.as_str()).collect();
    assert_eq!(prefixes, vec!["project", "edit", "pyright", "run"]);
    assert_eq!(m[0].sections[1].prefix, "file");
    assert_eq!(m[0].sections[1].items.len(), 5);
    assert_eq!(m[0].sections[1].items[3].label, "Сохранить Все");
    assert_eq!(m[0].sections[1].items[3].suffix, "save_all");
    assert_eq!(m[2].sections[0].items[0].suffix, "project");
    assert_eq!(m[1].sections[0].label, "");
}

#[test]
fn every_shortcut_is_in_the_menu() {
    let m = menu();
    let s = shortcuts();
    assert_eq!(s.len(), 21);
    for sc in &s {
        let found = m.iter().any(|sub| {
            sub.prefix == sc.submenu
                && sub.sections.iter().any(|sec| sec.prefix == sc.section && sec.items.iter().any(|i| i.suffix == sc.suffix))
        });
        assert!(found, "{}.{}__{}", sc.submenu, sc.section, sc.suffix);
    }
    assert_eq!(s[4].accels, vec!["<Ctrl>S".to_string()]);
    assert_eq!(detailed_action_name(&s[4].submenu, &s[4].section, &s[4].suffix), "project.file__save");
}

#[test]
fn menu_entries_are_distinct() {
    let m = menu();
    let mut actions: Vec<String> = Vec::new();
    for sub in &m {
        for sec in &sub.sections {
            for item in &sec.items {
                actions.push(detailed_action_name(&sub.prefix, &sec.prefix, &item.suffix));
            }
        }
    }
    assert_eq!(actions.len(), 23);
    let mut sorted = actions.clone();
    sorted.sort();
    sorted.dedup();
    assert_eq!(sorted.len(), 23);
    for registered in ["project.file__new", "project.file__save", "project.file__save_all", "project.dir__new", "pyright.diagnostic__project"] {
        assert!(actions.iter().any(|a| a == registered), "{}", registered);
    }
}
