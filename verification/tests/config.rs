use video_trimmer::cli::{Cli, LaunchOptions};
use video_trimmer::config::{path_from, resolve, FileConfig, Format, OnDone, Quality};

fn cli() -> Cli {
    Cli {
        input: None,
        output: None,
        format: None,
        quality: None,
        on_done: None,
        verbose: false,
    }
}

fn file() -> FileConfig {
    FileConfig::default()
}

#[test]
fn path_prefers_xdg_then_home_config() {
    assert_eq!(
        path_from(Some("/x".into()), Some("/home/u".into())).unwrap(),
        "/x/video-trimmer/config.toml"
    );
    assert_eq!(
        path_from(None, Some("/home/u".into())).unwrap(),
        "/home/u/.config/video-trimmer/config.toml"
    );
    assert_eq!(
        path_from(Some("".into()), Some("/home/u".into())).unwrap(),
        "/home/u/.config/video-trimmer/config.toml"
    );
}

#[test]
fn config_path_needs_a_base() {
    assert_eq!(path_from(None, None), None);
    assert_eq!(path_from(Some("".into()), None), None);
    assert_eq!(
        path_from(Some("/x/".into()), None).unwrap(),
        "/x/video-trimmer/config.toml"
    );
}

#[test]
fn defaults_and_partial_file() {
    let e = resolve(&cli(), &FileConfig::default());
    assert_eq!(
        (e.format, e.quality, e.on_done),
        (Format::Mp4, Quality::Original, OnDone::Exit)
    );
    let e = resolve(
        &cli(),
        &FileConfig {
            format: Some(Format::Gif),
            ..file()
        },
    );
    assert_eq!(
        (e.format, e.quality, e.on_done),
        (Format::Gif, Quality::Original, OnDone::Exit)
    );
}

#[test]
fn flag_overrides_file() {
    let e = resolve(
        &Cli {
            quality: Some(Quality::High),
            ..cli()
        },
        &FileConfig {
            quality: Some(Quality::Small),
            ..file()
        },
    );
    assert_eq!(e.quality, Quality::High);
    let e = resolve(
        &Cli {
            on_done: Some(OnDone::Exit),
            ..cli()
        },
        &FileConfig {
            on_done: Some(OnDone::Stay),
            ..file()
        },
    );
    assert_eq!(e.on_done, OnDone::Exit);
}

#[test]
fn output_extension_implies_format() {
    let with_output = |o: &str| Cli {
        output: Some(o.to_string()),
        ..cli()
    };
    let with_format = |f: Format| FileConfig {
        format: Some(f),
        ..file()
    };
    let e = resolve(&with_output("clip.gif"), &with_format(Format::Webm));
    assert_eq!(e.format, Format::Gif);
    assert_eq!(e.output.unwrap(), "clip.gif");
    let e = resolve(&with_output("clip.mp4"), &with_format(Format::Copy));
    assert_eq!(e.format, Format::Copy);
    let e = resolve(&with_output("clip.MP4"), &with_format(Format::Gif));
    assert_eq!(e.format, Format::Mp4);
}

#[test]
fn flag_overrides_output_extension() {
    let flagged = |f: Format, o: &str| Cli {
        format: Some(f),
        output: Some(o.to_string()),
        ..cli()
    };
    let e = resolve(&flagged(Format::Mp4, "clip.gif"), &FileConfig::default());
    assert_eq!(e.format, Format::Mp4);
    assert_eq!(e.output.unwrap(), "clip.mp4");
    let e = resolve(&flagged(Format::Copy, "clip.mp4"), &FileConfig::default());
    assert_eq!(e.output.unwrap(), "clip.mp4");
    let e = resolve(&flagged(Format::Webm, "dir/clip"), &FileConfig::default());
    assert_eq!(e.output.unwrap(), "dir/clip.webm");
}

#[test]
fn unknown_output_extension_keeps_the_file_format() {
    let e = resolve(
        &Cli {
            output: Some("clip.mov".into()),
            ..cli()
        },
        &FileConfig {
            format: Some(Format::Webm),
            ..file()
        },
    );
    assert_eq!(e.format, Format::Webm);
    assert_eq!(e.output.unwrap(), "clip.mov");
    // an explicit flag keeps an extension that already matches in another case
    let e = resolve(
        &Cli {
            format: Some(Format::Gif),
            output: Some("clip.GIF".into()),
            ..cli()
        },
        &file(),
    );
    assert_eq!(e.output.unwrap(), "clip.GIF");
}

#[test]
fn launch_options_serialize_effective_values() {
    let c = Cli {
        on_done: Some(OnDone::Stay),
        ..cli()
    };
    let effective = resolve(&c, &FileConfig::default());
    let options = LaunchOptions::new(c, effective);
    assert_eq!(options.format, Format::Mp4);
    assert_eq!(options.quality, Quality::Original);
    assert_eq!(options.on_done, OnDone::Stay);
    assert!(!options.verbose);
}

#[test]
fn format_extensions_and_their_formats() {
    assert_eq!(Format::Mp4.extension(), "mp4");
    assert_eq!(Format::Copy.extension(), "mp4");
    assert_eq!(Format::Webm.extension(), "webm");
    assert_eq!(Format::Gif.extension(), "gif");
    assert_eq!(Format::from_extension("WebM"), Some(Format::Webm));
    assert_eq!(Format::from_extension("gif"), Some(Format::Gif));
    assert_eq!(Format::from_extension("mov"), None);
}

#[test]
fn format_flag_rewrites_the_extension_text() {
    let rewritten = |format: Format, output: &str| {
        let mut c = cli();
        c.format = Some(format);
        c.output = Some(output.to_string());
        resolve(&c, &file()).output.unwrap()
    };
    assert_eq!(rewritten(Format::Gif, "/out/clip.mp4"), "/out/clip.gif");
    assert_eq!(rewritten(Format::Webm, "clip"), "clip.webm");
    assert_eq!(rewritten(Format::Webm, "a.b.mp4"), "a.b.webm");
    assert_eq!(rewritten(Format::Gif, "/out/.hidden"), "/out/.hidden.gif");
    assert_eq!(rewritten(Format::Mp4, "clip.MP4"), "clip.MP4");
    assert_eq!(rewritten(Format::Copy, "clip.webm"), "clip.mp4");
}
