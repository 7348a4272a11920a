use loadingbar::LoadingBar;

fn chars_of(s: &str) -> Vec<char> {
    s.chars().collect()
}

#[test]
fn default_config() {
    let bar = LoadingBar::new();
    assert_eq!(bar.duration_nanos, 5_000_000_000);
    assert_eq!(bar.progress_char, '#');
    assert_eq!(bar.length, 20);
    assert_eq!(bar.prefix, "");
}

#[test]
fn custom_config() {
    let bar = LoadingBar::new_with_config(10_000_000_000, '*', 30, String::from("Loading.. "));
    assert_eq!(bar.duration_nanos, 10_000_000_000);
    assert_eq!(bar.progress_char, '*');
    assert_eq!(bar.length, 30);
    assert_eq!(bar.prefix, "Loading.. ");
}

#[test]
fn render_produces_length_frames() {
    for n in [1u32, 2, 5, 20, 37] {
        let bar = LoadingBar::new_with_config(0, '#', n, String::new());
        let frames = bar.render();
        assert_eq!(frames.len(), n as usize);
    }
}

#[test]
fn scenario_loading_frames() {
    let bar = LoadingBar::new_with_config(1_000_000_000, '*', 4, String::from("Loading.. "));
    assert_eq!(bar.frame_interval_nanos(), 250_000_000);
    let frames = bar.render();
    assert_eq!(frames.len(), 4);
    assert_eq!(frames[0], chars_of("Loading.. [*   ]\r"));
    assert_eq!(frames[1], chars_of("Loading.. [**  ]\r"));
    assert_eq!(frames[2], chars_of("Loading.. [*** ]\r"));
    assert_eq!(frames[3], chars_of("Loading.. [****]\n"));
}

#[test]
fn frame_fill_and_space_counts() {
    let prefix = String::from("x");
    let bar = LoadingBar::new_with_config(0, '#', 7, prefix);
    for i in 1u32..=7 {
        let f = bar.frame(i);
        assert_eq!(f[1], '[');
        assert_eq!(f[9], ']');
        let content = &f[2..9];
        let fills = content.iter().filter(|&&c| c == '#').count();
        let spaces = content.iter().filter(|&&c| c == ' ').count();
        assert_eq!(fills, i as usize);
        assert_eq!(spaces, (7 - i) as usize);
    }
}

#[test]
fn final_frame_full_and_newline() {
    let bar = LoadingBar::new_with_config(0, '=', 5, String::new());
    let f = bar.frame(5);
    assert_eq!(f, chars_of("[=====]\n"));
    assert!(f[1..6].iter().all(|&c| c == '='));
    assert_eq!(*f.last().unwrap(), '\n');
    assert_ne!(*f.last().unwrap(), '\r');
}

#[test]
fn nonfinal_frames_end_with_carriage_return() {
    let bar = LoadingBar::new_with_config(0, '#', 6, String::from("p: "));
    let frames = bar.render();
    for i in 0..5 {
        assert_eq!(*frames[i].last().unwrap(), '\r');
        assert_ne!(*frames[i].last().unwrap(), '\n');
    }
    assert_eq!(*frames[5].last().unwrap(), '\n');
}

#[test]
fn frame_width_is_constant() {
    let prefix = String::from("wait ");
    let bar = LoadingBar::new_with_config(0, '#', 9, prefix.clone());
    let frames = bar.render();
    for f in &frames {
        assert_eq!(f.len(), prefix.chars().count() + 9 + 3);
        assert_eq!(f[prefix.chars().count()], '[');
        assert_eq!(f[prefix.chars().count() + 1 + 9], ']');
    }
}

#[test]
fn single_cell_bar() {
    let bar = LoadingBar::new_with_config(0, '#', 1, String::new());
    let frames = bar.render();
    assert_eq!(frames.len(), 1);
    assert_eq!(frames[0], chars_of("[#]\n"));
}

#[test]
fn interval_divides_duration_truncating() {
    let bar = LoadingBar::new_with_config(10, '#', 3, String::new());
    assert_eq!(bar.frame_interval_nanos(), 3);
    let five_secs = LoadingBar::new();
    assert_eq!(five_secs.frame_interval_nanos(), 250_000_000);
}

#[test]
fn zero_duration_interval() {
    let bar = LoadingBar::new_with_config(0, '#', 8, String::new());
    assert_eq!(bar.frame_interval_nanos(), 0);
}

#[test]
fn identical_configs_render_identically() {
    let a = LoadingBar::new_with_config(2_000_000_000, '>', 11, String::from("go "));
    let b = LoadingBar::new_with_config(2_000_000_000, '>', 11, String::from("go "));
    assert_eq!(a.render(), b.render());
}

#[test]
fn multibyte_prefix_is_kept_whole() {
    let bar = LoadingBar::new_with_config(0, '#', 2, String::from("héllo→ "));
    let frames = bar.render();
    assert_eq!(frames[0], chars_of("héllo→ [# ]\r"));
    assert_eq!(frames[1], chars_of("héllo→ [##]\n"));
}
