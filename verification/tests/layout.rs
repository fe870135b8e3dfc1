use audio_calculator::audio::AudioFileInfo;
use audio_calculator::duration::Duration;
use audio_calculator::screenshot::{
    calc_file_list_height, file_list_ops, plan_screenshot, shorten_name, DrawOp, Rgba8,
};
use audio_calculator::settings::AppSettings;
use audio_calculator::shell::{
    context_menu_key_paths, context_menu_plan, exe_path_error, menu_command, menu_icon, step_error,
    unsupported_platform_error, RegistryStep,
};

fn file(name: &str, secs: u64) -> AudioFileInfo {
    AudioFileInfo { file_path: format!("/{}", name), file_name: name.to_string(), duration: Duration::from_secs(secs) }
}

fn text_of(op: &DrawOp) -> Option<&str> {
    match op {
        DrawOp::Text { text, .. } => Some(text.as_str()),
        _ => None,
    }
}

#[test]
fn list_height_by_rows() {
    assert_eq!(calc_file_list_height(0, 36), 0);
    assert_eq!(calc_file_list_height(1, 36), 56);
    assert_eq!(calc_file_list_height(10, 36), 380);
    assert_eq!(calc_file_list_height(11, 36), 236);
    assert_eq!(calc_file_list_height(12, 36), 236);
    assert_eq!(calc_file_list_height(13, 36), 272);
}

#[test]
fn shorten_long_names() {
    assert_eq!(shorten_name(&"短名字.mp3".to_string(), 28, 25), "短名字.mp3");
    let long: String = "一二三四五六七八九十".repeat(3);
    assert_eq!(shorten_name(&long, 28, 25), format!("{}...", long.chars().take(25).collect::<String>()));
    assert_eq!(shorten_name(&"abcdefghijklm".to_string(), 12, 9), "abcdefghi...");
    assert_eq!(shorten_name(&"abcdefghijkl".to_string(), 12, 9), "abcdefghijkl");
}

#[test]
fn single_column_list_layout() {
    let files = vec![file("a.mp3", 61), file("b.mp3", 3600)];
    let (ops, end) = file_list_ops(&files, 72, 240, 656);
    assert_eq!(end, 240 + 2 * 36);
    assert_eq!(ops.len(), 6);
    match &ops[3] {
        DrawOp::FillRect { x, y, width, height, color } => {
            assert_eq!((*x, *y, *width, *height), (64, 274, 672, 36));
            assert_eq!(*color, Rgba8 { r: 255, g: 255, b: 255, a: 255 });
        }
        _ => panic!("expected a rectangle"),
    }
    assert_eq!(text_of(&ops[1]), Some("* a.mp3"));
    assert_eq!(text_of(&ops[2]), Some("00:01:01"));
    match &ops[5] {
        DrawOp::Text { x, y, size, .. } => assert_eq!((*x, *y, *size), (72 + 656 - 90, 280, 18)),
        _ => panic!("expected text"),
    }
}

#[test]
fn two_column_list_layout() {
    let files: Vec<AudioFileInfo> = (0..11).map(|i| file(&format!("file-number-{:02}.mp3", i), i)).collect();
    let (ops, end) = file_list_ops(&files, 72, 240, 656);
    assert_eq!(ops.len(), 22);
    assert_eq!(end, 240 + 6 * 36);
    match &ops[12] {
        DrawOp::FillRect { x, y, width, .. } => assert_eq!((*x, *y, *width), (72 + 344 - 8, 238, 328)),
        _ => panic!("expected a rectangle"),
    }
    assert_eq!(text_of(&ops[13]), Some("* file-numb... (00:00:06)"));
}

#[test]
fn screenshot_plan_texts() {
    let files = vec![file("a.mp3", 30), file("b.mp3", 90)];
    let plan = plan_screenshot(&files, Duration::from_secs(120), "100", false, "¥3.33".to_string(), "2024-01-02 03:04".to_string());
    assert_eq!(plan.width, 800);
    assert_eq!(plan.height, 440 + (2 * 36 + 20) + 100);
    match plan.card {
        DrawOp::FillRect { x, y, width, height, .. } => assert_eq!((x, y, width, height), (40, 40, 720, plan.height - 80)),
        _ => panic!("expected the card"),
    }
    let texts: Vec<&str> = plan.ops.iter().filter_map(text_of).collect();
    assert_eq!(
        texts,
        vec![
            "音频时长统计",
            "文件: 2 个",
            "时长: 00:02:00",
            "单价: ¥100/小时",
            "文件列表:",
            "* a.mp3",
            "00:00:30",
            "* b.mp3",
            "00:01:30",
            "总计金额",
            "¥3.33",
            "2024-01-02 03:04",
        ]
    );
    match plan.ops.last().unwrap() {
        DrawOp::Text { y, .. } => assert_eq!(*y, plan.height as i32 - 68),
        _ => panic!("expected text"),
    }
}

#[test]
fn screenshot_plan_without_files() {
    let plan = plan_screenshot(&Vec::new(), Duration::zero(), "2", true, "¥0.00".to_string(), "t".to_string());
    assert_eq!(plan.height, 540);
    assert_eq!(plan.ops.len(), 11);
    assert_eq!(text_of(&plan.ops[6]), Some("单价: ¥2/分钟"));
    match &plan.ops[7] {
        DrawOp::FillRect { y, .. } => assert_eq!(*y, 200),
        _ => panic!("expected a rectangle"),
    }
}

#[test]
fn screenshot_plan_ends_with_its_time() {
    let plan = plan_screenshot(&Vec::new(), Duration::zero(), "1", false, "¥0.00".to_string(), "2024-05-06 07:08".to_string());
    assert_eq!(text_of(plan.ops.last().unwrap()), Some("2024-05-06 07:08"));
}

#[test]
fn settings_default_and_loaded() {
    assert_eq!(AppSettings::default().screenshot_style, "Gradient");
    assert_eq!(AppSettings::from_loaded(None).screenshot_style, "Gradient");
    let s = AppSettings { screenshot_style: "Plain".to_string() };
    assert_eq!(AppSettings::from_loaded(Some(s)).screenshot_style, "Plain");
}

#[test]
fn context_menu_entries() {
    assert_eq!(menu_icon("C:\\a b\\x.exe"), "C:\\a b\\x.exe,0");
    assert_eq!(menu_command("C:\\x.exe"), "\"C:\\x.exe\" \"%1\"");
    let plan = context_menu_plan("C:\\x.exe");
    assert_eq!(plan.len(), 11);
    match &plan[0] {
        RegistryStep::CreateKey { path, error_suffix, .. } => {
            assert_eq!(path, "*\\shell\\AudioCalculator");
            assert!(error_suffix.contains("管理员"));
        }
        _ => panic!("expected a key"),
    }
    match &plan[10] {
        RegistryStep::SetValue { name, data, error_prefix, .. } => {
            assert_eq!(name, "");
            assert_eq!(data, "\"C:\\x.exe\" \"%1\"");
            assert_eq!(error_prefix, "设置文件夹命令失败: ");
        }
        _ => panic!("expected a value"),
    }
    assert_eq!(context_menu_key_paths(), vec!["*\\shell\\AudioCalculator".to_string(), "Directory\\shell\\AudioCalculator".to_string()]);
    assert_eq!(step_error(&"a: ".to_string(), "b", &"c".to_string()), "a: bc");
    assert_eq!(exe_path_error("x"), "获取程序路径失败: x");
    assert_eq!(unsupported_platform_error(), "右键菜单功能仅支持 Windows 系统");
}

#[test]
fn empty_list_anywhere_returns_y() {
    let (ops, end) = file_list_ops(&Vec::new(), i32::MIN, 17, u32::MAX);
    assert!(ops.is_empty());
    assert_eq!(end, 17);
}

