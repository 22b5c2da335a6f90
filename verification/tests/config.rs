use libreland::config::{
    apply_wallpaper, media_step, reload_config, wallpaper_fallback, watch, AccelProfile,
    Action, Backdrop, Colour, Config, Fill, NamedOutput, OutputConfig, Stamp, Wallpaper, WallpaperStep,
};
use libreland::drm::RequestedMode;
use libreland::keyboard::{MOD_SHIFT, MOD_SUPER};

#[test]
fn defaults() {
    let c = Config::default();
    assert!(c.monitors.outputs.is_empty());
    assert_eq!((c.input.repeat_rate, c.input.repeat_delay), (25, 600));
    assert_eq!(c.input.mouse_accel_profile, AccelProfile::Flat);
    assert_eq!(c.binds.bindings.len(), 1);
    assert_eq!(c.binds.bindings[0].mods, MOD_SHIFT | MOD_SUPER);
    assert_eq!(c.binds.bindings[0].keysym, 0x45);
    assert!(matches!(c.binds.bindings[0].action, Action::Exit));
    assert!(matches!(
        c.misc.wallpaper,
        Wallpaper::Fill(Fill::VerticalGradient {
            top: Colour { r: 40, g: 60, b: 90 },
            bottom: Colour { r: 10, g: 20, b: 50 },
        })
    ));
    assert_eq!(OutputConfig::default().scale, 120);
}

#[test]
fn reading_the_same_again_changes_nothing() {
    let outputs = vec!["DP-1".to_owned()];
    let plan = reload_config(&Config::default(), &Config::default(), &outputs);
    assert_eq!(plan.repeat, None);
    assert!(!plan.keyboard_layout && !plan.accel && !plan.monitors);
    assert_eq!((plan.numlock, plan.xwayland), (None, None));
    assert!(plan.rebuild.is_empty());
}

#[test]
fn only_what_differs_is_applied() {
    let old = Config::default();
    let mut new = Config::default();
    new.input.repeat_rate = u32::MAX;
    new.input.keyboard_layout = "se".to_owned();
    new.input.mouse_accel_speed = 10;
    new.input.numlock = true;
    new.xwayland = true;
    let mode = Some(RequestedMode { width: 1, height: 2, millihertz: 3 });
    let named = |name: &str, settings| NamedOutput { name: name.to_owned(), settings };
    new.monitors.outputs = vec![
        named("DP-1", OutputConfig { mode, ..OutputConfig::default() }),
        named("DP-2", OutputConfig { x: 5, ..OutputConfig::default() }),
        named("DP-3", OutputConfig { hdr: true, ..OutputConfig::default() }),
    ];
    let outputs = ["DP-1", "DP-2", "DP-3"].iter().map(|n| n.to_string()).collect();
    let plan = reload_config(&old, &new, &outputs);
    assert_eq!(plan.repeat, Some((i32::MAX, 600)));
    assert!(plan.keyboard_layout && plan.accel && plan.monitors);
    assert_eq!((plan.numlock, plan.xwayland), (Some(true), Some(true)));
    assert_eq!(plan.rebuild, vec!["DP-1", "DP-3"]);
    assert_eq!(new.monitors.get("DP-2").unwrap().x, 5);
    assert_eq!(new.monitors.get("DP-9"), None);
}

#[test]
fn wallpapers() {
    let black = Fill::Solid(Colour { r: 0, g: 0, b: 0 });
    assert_eq!(
        apply_wallpaper(&Wallpaper::Fill(black), &vec![]),
        WallpaperStep::Show(Backdrop { fill: black, drop: true })
    );
    let media = Wallpaper::Media { path: "a.png".to_owned() };
    assert_eq!(apply_wallpaper(&media, &vec![]), WallpaperStep::Decode { cap: 3840 });
    assert_eq!(
        apply_wallpaper(&media, &vec![(1920, 1080), (1080, 2560)]),
        WallpaperStep::Decode { cap: 2560 }
    );
    assert_eq!(apply_wallpaper(&media, &vec![(-1, -1)]), WallpaperStep::Decode { cap: 1 });
    assert_eq!(media_step(true, true), Backdrop { fill: black, drop: false });
    // A picture that cannot be shown takes the old one off the screen.
    let nothing = Backdrop { fill: wallpaper_fallback(), drop: true };
    assert_eq!(media_step(true, false), nothing);
    assert_eq!(media_step(false, true), nothing);
    assert_eq!(media_step(false, false), nothing);
    assert_eq!(wallpaper_fallback(), Fill::Solid(Colour { r: 8, g: 8, b: 10 }));
}

#[test]
fn the_file_is_watched() {
    let a = Some(Stamp { modified: Some(1), len: 10 });
    let b = Some(Stamp { modified: Some(2), len: 10 });
    let mut last = a;
    assert!(!watch(&mut last, a));
    assert!(watch(&mut last, b));
    assert!(!watch(&mut last, b));
    assert!(!watch(&mut last, None));
    assert!(watch(&mut last, b));
}
