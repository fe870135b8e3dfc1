//! The registry entries of the Explorer context menu that opens the tool on
//! files and folders.

use vstd::prelude::*;

verus! {

/// One registry operation: create (or open) a key under `HKEY_CLASSES_ROOT`,
/// or set a string value on the key created last. Where it fails, the error
/// shown is `error_prefix`, the system's reason, then `error_suffix`.
pub enum RegistryStep {
    CreateKey { path: String, error_prefix: String, error_suffix: String },
    SetValue { name: String, data: String, error_prefix: String, error_suffix: String },
}

/// The content of a registry operation.
pub ghost enum StepView {
    CreateKey { path: Seq<char>, error_prefix: Seq<char>, error_suffix: Seq<char> },
    SetValue { name: Seq<char>, data: Seq<char>, error_prefix: Seq<char>, error_suffix: Seq<char> },
}

impl View for RegistryStep {
    type V = StepView;

    open spec fn view(&self) -> StepView {
        match self {
            RegistryStep::CreateKey { path, error_prefix, error_suffix } => StepView::CreateKey {
                path: path@,
                error_prefix: error_prefix@,
                error_suffix: error_suffix@,
            },
            RegistryStep::SetValue { name, data, error_prefix, error_suffix } => StepView::SetValue {
                name: name@,
                data: data@,
                error_prefix: error_prefix@,
                error_suffix: error_suffix@,
            },
        }
    }
}

/// The icon entry: the program's first icon.
pub open spec fn icon_value(exe: Seq<char>) -> Seq<char> {
    exe + ",0"@
}

/// The command entry: the program, quoted, on the selected item, quoted.
pub open spec fn command_value(exe: Seq<char>) -> Seq<char> {
    "\""@ + exe + "\" \"%1\""@
}

/// The menu title.
pub open spec fn menu_title() -> Seq<char> {
    "音频时长统计"@
}

/// The registry operations that register the menu for the program at `exe`,
/// in order.
pub open spec fn context_menu_steps(exe: Seq<char>) -> Seq<StepView> {
    seq![
        StepView::CreateKey {
            path: "*\\shell\\AudioCalculator"@,
            error_prefix: "创建注册表项失败: "@,
            error_suffix: "。需要管理员权限，请右键以管理员身份运行程序。"@,
        },
        StepView::SetValue { name: ""@, data: menu_title(), error_prefix: "设置注册表值失败: "@, error_suffix: ""@ },
        StepView::SetValue { name: "Icon"@, data: icon_value(exe), error_prefix: "设置图标失败: "@, error_suffix: ""@ },
        StepView::SetValue {
            name: "MultiSelectModel"@,
            data: "Player"@,
            error_prefix: "设置多选模式失败: "@,
            error_suffix: ""@,
        },
        StepView::CreateKey {
            path: "*\\shell\\AudioCalculator\\command"@,
            error_prefix: "创建命令项失败: "@,
            error_suffix: ""@,
        },
        StepView::SetValue { name: ""@, data: command_value(exe), error_prefix: "设置命令失败: "@, error_suffix: ""@ },
        StepView::CreateKey {
            path: "Directory\\shell\\AudioCalculator"@,
            error_prefix: "创建文件夹菜单项失败: "@,
            error_suffix: ""@,
        },
        StepView::SetValue {
            name: ""@,
            data: menu_title(),
            error_prefix: "设置文件夹菜单名称失败: "@,
            error_suffix: ""@,
        },
        StepView::SetValue {
            name: "Icon"@,
            data: icon_value(exe),
            error_prefix: "设置文件夹菜单图标失败: "@,
            error_suffix: ""@,
        },
        StepView::CreateKey {
            path: "Directory\\shell\\AudioCalculator\\command"@,
            error_prefix: "创建文件夹命令项失败: "@,
            error_suffix: ""@,
        },
        StepView::SetValue {
            name: ""@,
            data: command_value(exe),
            error_prefix: "设置文件夹命令失败: "@,
            error_suffix: ""@,
        },
    ]
}

/// The keys that removing the menu deletes, with all below them.
pub open spec fn context_menu_keys() -> Seq<Seq<char>> {
    seq!["*\\shell\\AudioCalculator"@, "Directory\\shell\\AudioCalculator"@]
}

/// Whether the registry key `path` is the key `key` or lies below it.
pub open spec fn under_key(path: Seq<char>, key: Seq<char>) -> bool {
    ||| path == key
    ||| key.len() < path.len() && path.subrange(0, key.len() as int) == key && path[key.len() as int] == '\\'
}

/// Whether a registry operation, where it creates a key, creates one that is
/// one of `keys` or lies below one of them.
pub open spec fn created_under(step: StepView, keys: Seq<Seq<char>>) -> bool {
    match step {
        StepView::CreateKey { path, .. } => exists|j: int| 0 <= j < keys.len() && under_key(path, #[trigger] keys[j]),
        StepView::SetValue { .. } => true,
    }
}

/// Removing the menu takes away all that registering it made: every key that
/// the registration creates is one of the keys that removal deletes (each with
/// all below it) or lies below one of them.
pub proof fn lemma_removal_covers_registration(exe: Seq<char>)
    ensures
        forall|i: int|
            0 <= i < context_menu_steps(exe).len() ==> #[trigger] created_under(
                context_menu_steps(exe)[i],
                context_menu_keys(),
            ),
{
    let steps = context_menu_steps(exe);
    let keys = context_menu_keys();
    reveal_strlit("*\\shell\\AudioCalculator");
    reveal_strlit("*\\shell\\AudioCalculator\\command");
    reveal_strlit("Directory\\shell\\AudioCalculator");
    reveal_strlit("Directory\\shell\\AudioCalculator\\command");
    assert(under_key(steps[0]->path, keys[0]));
    assert(under_key(steps[4]->path, keys[0])) by {
        assert(steps[4]->path.subrange(0, 23) =~= keys[0]);
    }
    assert(under_key(steps[6]->path, keys[1]));
    assert(under_key(steps[9]->path, keys[1])) by {
        assert(steps[9]->path.subrange(0, 31) =~= keys[1]);
    }
    assert forall|i: int| 0 <= i < steps.len() implies #[trigger] created_under(steps[i], keys) by {
        if i == 0 || i == 4 {
            assert(under_key(steps[i]->path, keys[0]));
        } else if i == 6 || i == 9 {
            assert(under_key(steps[i]->path, keys[1]));
        }
    }
}

/// The icon entry for the program at `exe`.
pub fn menu_icon(exe: &str) -> (r: String)
    ensures
        r@ == icon_value(exe@),
{
    let mut s = String::from_str(exe);
    s.append(",0");
    s
}

/// The command entry for the program at `exe`.
pub fn menu_command(exe: &str) -> (r: String)
    ensures
        r@ == command_value(exe@),
{
    let mut s = String::from_str("\"");
    s.append(exe);
    s.append("\" \"%1\"");
    s
}

fn create_key(path: &str, error_prefix: &str, error_suffix: &str) -> (r: RegistryStep)
    ensures
        r@ == (StepView::CreateKey { path: path@, error_prefix: error_prefix@, error_suffix: error_suffix@ }),
{
    RegistryStep::CreateKey {
        path: String::from_str(path),
        error_prefix: String::from_str(error_prefix),
        error_suffix: String::from_str(error_suffix),
    }
}

fn set_value(name: &str, data: String, error_prefix: &str) -> (r: RegistryStep)
    ensures
        r@ == (StepView::SetValue { name: name@, data: data@, error_prefix: error_prefix@, error_suffix: ""@ }),
{
    RegistryStep::SetValue {
        name: String::from_str(name),
        data,
        error_prefix: String::from_str(error_prefix),
        error_suffix: String::from_str(""),
    }
}

/// The registry operations that register the menu for the program at `exe`.
pub fn context_menu_plan(exe: &str) -> (r: Vec<RegistryStep>)
    ensures
        r@.map_values(|s: RegistryStep| s@) == context_menu_steps(exe@),
{
    let mut v: Vec<RegistryStep> = Vec::new();
    v.push(create_key("*\\shell\\AudioCalculator", "创建注册表项失败: ", "。需要管理员权限，请右键以管理员身份运行程序。"));
    v.push(set_value("", String::from_str("音频时长统计"), "设置注册表值失败: "));
    v.push(set_value("Icon", menu_icon(exe), "设置图标失败: "));
    v.push(set_value("MultiSelectModel", String::from_str("Player"), "设置多选模式失败: "));
    v.push(create_key("*\\shell\\AudioCalculator\\command", "创建命令项失败: ", ""));
    v.push(set_value("", menu_command(exe), "设置命令失败: "));
    v.push(create_key("Directory\\shell\\AudioCalculator", "创建文件夹菜单项失败: ", ""));
    v.push(set_value("", String::from_str("音频时长统计"), "设置文件夹菜单名称失败: "));
    v.push(set_value("Icon", menu_icon(exe), "设置文件夹菜单图标失败: "));
    v.push(create_key("Directory\\shell\\AudioCalculator\\command", "创建文件夹命令项失败: ", ""));
    v.push(set_value("", menu_command(exe), "设置文件夹命令失败: "));
    assert(v@.map_values(|s: RegistryStep| s@) =~= context_menu_steps(exe@));
    v
}

/// The keys that removing the menu deletes.
pub fn context_menu_key_paths() -> (r: Vec<String>)
    ensures
        r@.map_values(|s: String| s@) == context_menu_keys(),
{
    let mut v: Vec<String> = Vec::new();
    v.push(String::from_str("*\\shell\\AudioCalculator"));
    v.push(String::from_str("Directory\\shell\\AudioCalculator"));
    assert(v@.map_values(|s: String| s@) =~= context_menu_keys());
    v
}

/// The text of the error that registering a step failed with: the step's
/// prefix, the system's reason, and the step's suffix.
pub fn step_error(prefix: &String, reason: &str, suffix: &String) -> (r: String)
    ensures
        r@ == prefix@ + reason@ + suffix@,
{
    let mut s = String::from_str(prefix.as_str());
    s.append(reason);
    s.append(suffix.as_str());
    s
}

/// The error where the program's own path cannot be read.
pub fn exe_path_error(reason: &str) -> (r: String)
    ensures
        r@ == "获取程序路径失败: "@ + reason@,
{
    let mut s = String::from_str("获取程序路径失败: ");
    s.append(reason);
    s
}

/// The error off Windows, where there is no such menu.
pub fn unsupported_platform_error() -> (r: String)
    ensures
        r@ == "右键菜单功能仅支持 Windows 系统"@,
{
    String::from_str("右键菜单功能仅支持 Windows 系统")
}

} // verus!
