use release_manager::app::github::{Asset, Release};
use release_manager::app::model::{Settings, SoftwareEntry, TagGroup, Timestamp};
use release_manager::gui::add_wizard::AddWizard;
use release_manager::gui::edit_dialog::EditDialog;
use release_manager::gui::main_window::{MainWindow, UpdateOutcome};
use release_manager::gui::settings_window::SettingsWindow;
use release_manager::gui::tag_group_manager::TagGroupManager;
use release_manager::gui::widgets::{search_text_after, set_tag_selected};

fn ts(seconds: i64) -> Timestamp {
    Timestamp { seconds, nanos: 0, offset_seconds: 0 }
}

fn asset(name: &str) -> Asset {
    Asset { name: name.to_string(), browser_download_url: format!("https://dl/{}", name), size: Some(1) }
}

fn release(tag: &str, assets: Vec<Asset>) -> Release {
    Release { tag_name: tag.to_string(), name: None, assets }
}

fn entry(id: i64, name: &str, tags: &[&str]) -> SoftwareEntry {
    SoftwareEntry {
        id: Some(id),
        name: name.to_string(),
        alias: String::new(),
        repo_url: String::new(),
        current_version: "1.0".to_string(),
        latest_version: None,
        asset_name: String::new(),
        install_path: None,
        executable_path: None,
        notes: String::new(),
        tags: tags.iter().map(|t| t.to_string()).collect(),
        linked_folders: vec![],
        created_at: ts(0),
        updated_at: ts(0),
    }
}

#[test]
fn wizard_link_step() {
    let mut w = AddWizard::new();
    assert_eq!(w.title(), "步骤1: 输入 GitHub 链接");
    assert_eq!(w.start_fetch(), None);
    assert!(w.error.is_none());
    w.repo_url = "  https://github.com/o/r/  ".to_string();
    assert_eq!(w.start_fetch(), Some(("o".to_string(), "r".to_string())));
    assert_eq!(w.repo_url, "https://github.com/o/r/");
    assert!(w.loading);
    assert_eq!(w.owner, "o");
    // While loading, a second click does nothing.
    assert_eq!(w.start_fetch(), None);
    let mut w2 = AddWizard::new();
    w2.repo_url = "nothing".to_string();
    assert_eq!(w2.start_fetch(), None);
    assert_eq!(w2.error, Some("无效的 GitHub 链接".to_string()));
}

#[test]
fn wizard_receives_releases() {
    let mut w = AddWizard::new();
    w.loading = true;
    w.receive_releases(Ok(vec![]));
    assert!(!w.loading);
    assert_eq!(w.error, Some("该仓库没有发布版本".to_string()));
    assert_eq!(w.step, 0);
    w.receive_releases(Err("timeout".to_string()));
    assert_eq!(w.error, Some("获取失败: timeout".to_string()));
    w.receive_releases(Ok(vec![release("v2", vec![])]));
    assert_eq!(w.step, 1);
    assert!(w.error.is_none());
    assert_eq!(w.title(), "步骤2: 选择版本与安装包");
}

#[test]
fn wizard_release_step_picks_the_recommended_asset() {
    let mut w = AddWizard::new();
    w.repo = "repo".to_string();
    w.receive_releases(Ok(vec![
        release("v2.0", vec![asset("src.tar.gz"), asset("app-linux.zip"), asset("app-win64.zip"), asset("app.exe")]),
        release("v1.0", vec![]),
    ]));
    w.selected_release_index = 7;
    w.begin_release_step();
    assert_eq!(w.selected_release_index, 0);
    assert_eq!(w.latest_version, "v2.0");
    let ranked = w.settle_asset_selection(0);
    assert_eq!(ranked, vec![(2, 50), (3, 30)]);
    assert_eq!(w.selected_asset_index, 2);
    assert_eq!(w.current_version, "v2.0");
    assert_eq!(w.asset_name, "app-win64.zip");
    assert_eq!(w.current_download_url, "https://dl/app-win64.zip");
    // A recommended choice stays.
    w.select_asset(0, 3);
    w.begin_release_step();
    w.settle_asset_selection(0);
    assert_eq!(w.selected_asset_index, 3);
    assert_eq!(w.asset_name, "app.exe");
    // Choosing the same release keeps the asset; another resets it.
    w.select_release(0);
    assert_eq!(w.selected_asset_index, 3);
    w.select_release(1);
    assert_eq!(w.selected_asset_index, 0);
    w.begin_release_step();
    let ranked = w.settle_asset_selection(1);
    assert!(ranked.is_empty());
    assert_eq!(w.current_download_url, "");
    assert_eq!(w.latest_version, "v2.0");
    w.go_to_details();
    assert_eq!(w.step, 2);
    assert_eq!(w.software_name, "repo");
    w.software_name = "kept".to_string();
    w.back_to_release();
    w.go_to_details();
    assert_eq!(w.software_name, "kept");
}

#[test]
fn wizard_release_without_recommendation_keeps_selection_in_range() {
    let mut w = AddWizard::new();
    w.receive_releases(Ok(vec![release("v1", vec![asset("a.deb"), asset("b.rpm")])]));
    w.selected_asset_index = 5;
    w.begin_release_step();
    let ranked = w.settle_asset_selection(0);
    assert!(ranked.is_empty());
    assert_eq!(w.selected_asset_index, 0);
    assert_eq!(w.asset_name, "a.deb");
    let mut empty = AddWizard::new();
    empty.begin_release_step();
    assert_eq!(empty.latest_version, "");
}

#[test]
fn wizard_finish() {
    let mut w = AddWizard::new();
    w.skip_to_details();
    assert_eq!(w.step, 2);
    assert!(w.releases.is_empty());
    w.software_name = "   ".to_string();
    assert!(w.finish(ts(1)).is_none());
    assert!(w.show_error_dialog);
    assert_eq!(w.error_message, "软件名称不能为空");
    w.dismiss_error();
    assert!(!w.show_error_dialog);
    w.software_name = "Tool".to_string();
    w.repo_url = " https://github.com/o/r ".to_string();
    w.tags = "a, b,,c ".to_string();
    w.latest_version = String::new();
    w.set_install_folder("C:/Tool".to_string(), Some("C:/Tool/tool.exe".to_string()));
    let e = w.finish(ts(42)).unwrap();
    assert_eq!(e.id, None);
    assert_eq!(e.name, "Tool");
    assert_eq!(e.repo_url, "https://github.com/o/r");
    assert_eq!(e.tags, vec!["a", "b", "c"]);
    assert_eq!(e.latest_version, None);
    assert_eq!(e.install_path, Some("C:/Tool".to_string()));
    assert_eq!(e.executable_path, Some("C:/Tool/tool.exe".to_string()));
    assert_eq!(e.notes, "");
    assert_eq!(e.created_at.seconds, 42);
    assert_eq!(e.updated_at.seconds, 42);
    w.back_to_release();
    assert_eq!(w.step, 1);
    w.back_to_link();
    assert_eq!(w.step, 0);
    w.close();
    assert!(w.closed);
}

#[test]
fn edit_dialog_flow() {
    let e = entry(3, "Tool", &["a", "b c"]);
    let mut d = EditDialog::new(e);
    assert!(d.open);
    assert_eq!(d.tags_string, "a, b c");
    d.set_latest_version(String::new());
    assert_eq!(d.entry.latest_version, None);
    d.set_latest_version("2.0".to_string());
    assert_eq!(d.entry.latest_version, Some("2.0".to_string()));
    d.set_install_path(String::new());
    assert_eq!(d.entry.install_path, None);
    d.set_install_folder("D:/t".to_string(), None);
    assert_eq!(d.entry.install_path, Some("D:/t".to_string()));
    assert_eq!(d.entry.executable_path, None);
    d.set_executable("D:/t/t.exe".to_string());
    d.set_executable_path(String::new());
    assert_eq!(d.entry.executable_path, None);
    d.entry.name = " ".to_string();
    assert!(d.save(ts(5)).is_none());
    assert!(d.show_error_dialog);
    assert!(d.open);
    d.dismiss_error();
    d.entry.name = "Tool".to_string();
    let saved = d.save(ts(5)).unwrap();
    assert!(!d.open);
    assert_eq!(saved.tags, vec!["a", "b c"]);
    assert_eq!(saved.updated_at.seconds, 5);
    assert_eq!(saved.id, Some(3));
    let mut d2 = EditDialog::new(entry(4, "X", &[]));
    d2.cancel();
    assert!(!d2.open);
}

#[test]
fn settings_window_flow() {
    let mut w = SettingsWindow::new(Settings::default());
    w.show_fields();
    assert_eq!(w.settings.github_token, Some(String::new()));
    assert_eq!(w.settings.download_dir, Some(String::new()));
    w.settings.auto_check_interval_hours = 6;
    let s = w.save().unwrap();
    assert!(!w.open);
    assert_eq!(s.auto_check_interval_hours, 6);
    let mut w2 = SettingsWindow::new(Settings::default());
    w2.cancel();
    assert!(!w2.open);
}

#[test]
fn tag_group_manager_flow() {
    let g = TagGroup { id: Some(9), name: "Dev".to_string(), tags: vec!["a".to_string(), "b".to_string()] };
    let mut m = TagGroupManager::new(vec![g.clone()]);
    assert!(m.open);
    assert!(!m.is_editing());
    m.begin_edit(&g);
    assert!(m.is_editing());
    assert_eq!(m.edit_name, "Dev");
    assert_eq!(m.edit_tags, "a, b");
    m.edit_name = "  New name ".to_string();
    m.edit_tags = "x, y,".to_string();
    let saved = m.save().unwrap();
    assert_eq!(saved.id, Some(9));
    assert_eq!(saved.name, "New name");
    assert_eq!(saved.tags, vec!["x", "y"]);
    assert!(!m.is_editing());
    assert_eq!(m.edit_name, "");
    m.begin_create();
    m.edit_name = "   ".to_string();
    assert!(m.save().is_none());
    assert!(m.show_error);
    assert_eq!(m.error_message, "组名不能为空");
    m.dismiss_error();
    m.edit_name = "G".to_string();
    let created = m.save().unwrap();
    assert_eq!(created.id, None);
    m.request_delete(&g);
    assert_eq!(m.take_pending_delete(), Some(9));
    assert_eq!(m.take_pending_delete(), None);
    m.set_groups(vec![]);
    assert!(m.result().is_none());
    m.begin_create();
    m.cancel_edit();
    assert!(!m.is_editing());
    m.close();
    assert_eq!(m.result().map(|v| v.len()), Some(0));
}

#[test]
fn widgets() {
    assert_eq!(search_text_after("abc".to_string(), true), "");
    assert_eq!(search_text_after("abc".to_string(), false), "abc");
    let mut sel = vec!["a".to_string(), "b".to_string(), "a".to_string()];
    set_tag_selected(&mut sel, &"a".to_string(), false);
    assert_eq!(sel, vec!["b"]);
    set_tag_selected(&mut sel, &"c".to_string(), true);
    assert_eq!(sel, vec!["b", "c"]);
}

#[test]
fn main_window_tags_and_filter() {
    let mut e1 = entry(1, "VS Code", &["editor", "dev"]);
    e1.alias = "Code".to_string();
    let mut e2 = entry(2, "Krita", &["Art"]);
    e2.notes = "Painting APP".to_string();
    let e3 = entry(3, "Git", &["dev", "cli"]);
    let mut w = MainWindow::new(vec![e1, e2, e3], vec![], None);
    assert_eq!(w.all_tags, vec!["Art", "cli", "dev", "editor"]);
    assert_eq!(w.auto_check_interval_hours, 24);
    assert!(w.updater.github_client().get_token().is_none());
    let names = |w: &MainWindow| w.filtered_entries().iter().map(|e| e.name.clone()).collect::<Vec<_>>();
    assert_eq!(names(&w), vec!["VS Code", "Krita", "Git"]);
    w.set_filter_text("app".to_string());
    assert_eq!(names(&w), vec!["Krita"]);
    w.set_filter_text("CODE".to_string());
    assert_eq!(names(&w), vec!["VS Code"]);
    w.set_filter_text("DEV".to_string());
    assert_eq!(names(&w), vec!["VS Code", "Git"]);
    w.set_filter_text(String::new());
    w.set_tag_selected(&"cli".to_string(), true);
    assert!(w.is_tag_selected("cli"));
    assert_eq!(names(&w), vec!["Git"]);
    w.set_tag_selected(&"Art".to_string(), true);
    assert_eq!(names(&w), vec!["Krita", "Git"]);
    w.set_tag_selected(&"cli".to_string(), false);
    assert!(!w.is_tag_selected("cli"));
    assert_eq!(names(&w), vec!["Krita"]);
    let group = TagGroup { id: Some(1), name: "g".to_string(), tags: vec!["dev".to_string(), "cli".to_string()] };
    assert!(!w.is_group_selected(&group));
    w.apply_tag_group(&group);
    assert!(w.is_group_selected(&group));
    w.set_tag_selected(&"dev".to_string(), true);
    assert!(w.is_group_selected(&group));
    assert_eq!(names(&w), vec!["VS Code", "Git"]);
    w.clear_selected_tags();
    assert!(w.selected_tags.is_empty());
    assert!(!w.is_group_selected(&group));
    let repeated = TagGroup { id: Some(2), name: "r".to_string(), tags: vec!["cli".to_string(), "dev".to_string(), "cli".to_string()] };
    w.apply_tag_group(&repeated);
    assert_eq!(w.selected_tags, vec!["cli", "dev"]);
    assert!(w.is_group_selected(&group));
    w.reload(vec![entry(5, "Z", &["zz", "aa"])]);
    assert_eq!(w.all_tags, vec!["aa", "zz"]);
}

#[test]
fn main_window_checks() {
    let settings = Settings { github_token: Some("t".to_string()), auto_check_interval_hours: 24, last_check_time: Some(ts(0)), download_dir: None };
    let mut w = MainWindow::new(vec![entry(1, "A", &[]), entry(2, "B", &[])], vec![], Some(settings));
    assert_eq!(w.updater.github_client().get_token(), &Some("t".to_string()));
    // 23 hours later: not due.
    assert!(!w.first_frame_check(ts(23 * 3600)));
    assert!(!w.first_frame);
    assert!(!w.check_all_in_progress);
    // Only the first frame decides.
    assert!(!w.first_frame_check(ts(100 * 3600)));
    let settings = Settings { github_token: None, auto_check_interval_hours: 24, last_check_time: Some(ts(0)), download_dir: None };
    let mut w2 = MainWindow::new(vec![], vec![], Some(settings));
    assert!(w2.first_frame_check(ts(24 * 3600)));
    assert!(w2.check_all_in_progress);
    assert!(!w2.begin_check_all());
    let mut w3 = MainWindow::new(vec![], vec![], Some(Settings::default()));
    assert!(!w3.first_frame_check(ts(0)));
    let mut w4 = MainWindow::new(vec![], vec![], Some(Settings { github_token: None, auto_check_interval_hours: 1, last_check_time: None, download_dir: None }));
    assert!(w4.first_frame_check(ts(0)));

    assert!(w.begin_check_single(2).map(|e| e.name) == Some("B".to_string()));
    assert!(w.check_in_progress());
    assert!(w.begin_check_single(2).is_none());
    assert!(w.begin_check_single(7).is_none());
    assert_eq!(w.check_single_in_progress, vec![2]);
    w.finish_check_single("B 已是最新".to_string(), vec![entry(1, "A", &[])]);
    assert!(!w.check_in_progress());
    assert!(w.shows_update_results());
    assert_eq!(w.entries.len(), 1);
    w.dismiss_update_results();
    assert!(!w.shows_update_results());
    assert!(w.begin_check_all());
    w.finish_check_all(vec![], vec![entry(1, "A", &["t"])]);
    assert!(!w.check_all_in_progress);
    assert!(!w.shows_update_results());
    assert_eq!(w.all_tags, vec!["t"]);
    w.set_last_check_time(ts(77));
    assert_eq!(w.last_check_time.unwrap().seconds, 77);
}

#[test]
fn update_messages() {
    let (msg, lines) = MainWindow::summarize_updates(&vec![]);
    assert_eq!(msg, "所有软件已是最新");
    assert!(lines.is_empty());
    let (msg, lines) = MainWindow::summarize_updates(&vec![
        (1, "A".to_string(), "v2".to_string()),
        (2, "B".to_string(), "1.1".to_string()),
    ]);
    assert_eq!(msg, "发现 2 个更新");
    assert_eq!(lines, vec!["A -> v2", "B -> 1.1"]);
    assert_eq!(MainWindow::single_update_message("A", &UpdateOutcome::Newer("v3".to_string())), "A 有新版本: v3");
    assert_eq!(MainWindow::single_update_message("A", &UpdateOutcome::UpToDate), "A 已是最新");
    assert_eq!(MainWindow::single_update_message("A", &UpdateOutcome::Failed("404".to_string())), "A 检查失败: 404");
}

#[test]
fn main_window_delete_flow() {
    let mut w = MainWindow::new(vec![], vec![], None);
    let mut e = entry(4, "Tool", &[]);
    e.alias = "T".to_string();
    w.request_delete(&e);
    assert!(w.show_delete_confirm);
    assert_eq!(w.pending_delete_name, "T (Tool)");
    assert_eq!(w.confirm_delete(), Some(4));
    assert!(!w.show_delete_confirm);
    assert_eq!(w.pending_delete_name, "");
    assert_eq!(w.confirm_delete(), None);
    let mut no_id = entry(5, "X", &[]);
    no_id.id = None;
    w.request_delete(&no_id);
    assert!(!w.show_delete_confirm);
    w.request_delete(&entry(6, "Y", &[]));
    assert_eq!(w.pending_delete_name, "Y");
    w.cancel_delete();
    assert!(w.pending_delete_id.is_none());
    w.set_show_add_wizard(true);
    assert!(w.show_add_wizard);
    w.set_show_tag_group_manager(true);
    assert!(w.show_tag_group_manager);
    w.set_tag_groups(vec![TagGroup { id: None, name: "n".to_string(), tags: vec![] }]);
    assert_eq!(w.tag_groups.len(), 1);
}
