use vstd::prelude::*;

use crate::cli::Cli;
use crate::paths::{
    file_name_of, file_stem_of, join_text, opt_view, path_extension, path_extension_of, path_join, path_set_extension,
    path_set_extension_of,
};
use crate::text::{eq_chars, eq_ignore_case, has_suffix, lower, lower_chars, to_chars};

verus! {

/// Output container and encoding.
#[derive(Debug, Clone, Copy, PartialEq, Eq, Structural)]
pub enum Format {
    Mp4,
    Webm,
    Gif,
    Copy,
}

/// Re-encoding tier.
#[derive(Debug, Clone, Copy, PartialEq, Eq, Structural)]
pub enum Quality {
    Original,
    High,
    Small,
}

/// What the editor does after a successful trim.
#[derive(Debug, Clone, Copy, PartialEq, Eq, Structural)]
pub enum OnDone {
    Exit,
    Stay,
}

impl Default for Format {
    fn default() -> (r: Format)
        ensures
            r == Format::Mp4,
    {
        Format::Mp4
    }
}

impl Default for Quality {
    fn default() -> (r: Quality)
        ensures
            r == Quality::Original,
    {
        Quality::Original
    }
}

impl Default for OnDone {
    fn default() -> (r: OnDone)
        ensures
            r == OnDone::Exit,
    {
        OnDone::Exit
    }
}

/// The file extension a format writes.
pub open spec fn ext_text(f: Format) -> Seq<char> {
    match f {
        Format::Mp4 | Format::Copy => "mp4"@,
        Format::Webm => "webm"@,
        Format::Gif => "gif"@,
    }
}

/// The format an output extension implies, compared without ASCII case;
/// `copy` writes `.mp4` too but is never implied.
pub open spec fn format_of_extension(e: Seq<char>) -> Option<Format> {
    let l = lower(e);
    if l == "mp4"@ {
        Some(Format::Mp4)
    } else if l == "webm"@ {
        Some(Format::Webm)
    } else if l == "gif"@ {
        Some(Format::Gif)
    } else {
        None
    }
}

impl Format {
    pub fn extension(self) -> (r: &'static str)
        ensures
            r@ == ext_text(self),
    {
        match self {
            Format::Mp4 | Format::Copy => "mp4",
            Format::Webm => "webm",
            Format::Gif => "gif",
        }
    }

    pub fn from_extension(ext: &str) -> (r: Option<Format>)
        ensures
            r == format_of_extension(ext@),
    {
        let l = lower_chars(to_chars(ext).as_slice());
        if eq_chars(l.as_slice(), to_chars("mp4").as_slice()) {
            Some(Format::Mp4)
        } else if eq_chars(l.as_slice(), to_chars("webm").as_slice()) {
            Some(Format::Webm)
        } else if eq_chars(l.as_slice(), to_chars("gif").as_slice()) {
            Some(Format::Gif)
        } else {
            None
        }
    }
}

/// The extension a format writes implies that format again, except for
/// stream copy, which writes `.mp4` and so reads back as MP4.
pub proof fn extension_implies_format(f: Format)
    ensures
        f != Format::Copy ==> format_of_extension(ext_text(f)) == Some(f),
        f == Format::Copy ==> format_of_extension(ext_text(f)) == Some(Format::Mp4),
{
    reveal_strlit("mp4");
    reveal_strlit("webm");
    reveal_strlit("gif");
    assert(lower("mp4"@) =~= "mp4"@);
    assert(lower("webm"@) =~= "webm"@);
    assert(lower("gif"@) =~= "gif"@);
    assert("webm"@.len() != "mp4"@.len());
    assert("gif"@[0] != "mp4"@[0]);
    assert("gif"@.len() != "webm"@.len());
}

/// Defaults read from the config file; every key is optional.
#[derive(Debug, Clone, Copy, PartialEq, Eq, Structural)]
pub struct FileConfig {
    pub format: Option<Format>,
    pub quality: Option<Quality>,
    pub on_done: Option<OnDone>,
}

impl Default for FileConfig {
    fn default() -> (r: FileConfig)
        ensures
            r.format is None,
            r.quality is None,
            r.on_done is None,
    {
        FileConfig { format: None, quality: None, on_done: None }
    }
}

/// The settings in force after every source has been weighed.
#[derive(Debug, Clone, PartialEq, Eq)]
pub struct Effective {
    pub format: Format,
    pub quality: Quality,
    pub on_done: OnDone,
    pub output: Option<String>,
}

/// The config file's location: `$XDG_CONFIG_HOME` when set and non-empty,
/// else `~/.config`, then `video-trimmer/config.toml` inside it.
pub open spec fn config_path_text(xdg: Option<Seq<char>>, home: Option<Seq<char>>) -> Option<
    Seq<char>,
> {
    let base = match xdg {
        Some(x) if x.len() > 0 => Some(x),
        _ => match home {
            Some(h) => Some(join_text(h, ".config"@)),
            None => None,
        },
    };
    match base {
        Some(b) => Some(join_text(join_text(b, "video-trimmer"@), "config.toml"@)),
        None => None,
    }
}

/// The config file is `video-trimmer/config.toml` inside `$XDG_CONFIG_HOME`
/// when that is set and not empty, else inside `~/.config`; without either
/// there is none.
pub proof fn config_file_location(x: Seq<char>, h: Seq<char>)
    ensures
        x.len() > 0 && x.last() != '/' ==> config_path_text(Some(x), Some(h)) == Some(
            x + "/video-trimmer/config.toml"@,
        ),
        x.len() > 0 && x.last() != '/' ==> config_path_text(Some(x), None) == Some(
            x + "/video-trimmer/config.toml"@,
        ),
        h.len() > 0 && h.last() != '/' ==> config_path_text(None, Some(h)) == Some(
            h + "/.config/video-trimmer/config.toml"@,
        ),
        h.len() > 0 && h.last() != '/' ==> config_path_text(Some(Seq::empty()), Some(h)) == Some(
            h + "/.config/video-trimmer/config.toml"@,
        ),
        config_path_text(None, None) is None,
{
    reveal_strlit("video-trimmer");
    reveal_strlit("config.toml");
    reveal_strlit(".config");
    reveal_strlit("/video-trimmer/config.toml");
    reveal_strlit("/.config/video-trimmer/config.toml");
    if x.len() > 0 && x.last() != '/' {
        let d = x + seq!['/'] + "video-trimmer"@;
        assert(join_text(x, "video-trimmer"@) == d);
        assert(d.last() == 'r');
        assert(join_text(d, "config.toml"@) =~= x + "/video-trimmer/config.toml"@);
    }
    if h.len() > 0 && h.last() != '/' {
        let c = h + seq!['/'] + ".config"@;
        assert(join_text(h, ".config"@) == c);
        assert(c.last() == 'g');
        let d = c + seq!['/'] + "video-trimmer"@;
        assert(join_text(c, "video-trimmer"@) == d);
        assert(d.last() == 'r');
        assert(join_text(d, "config.toml"@) =~= h + "/.config/video-trimmer/config.toml"@);
    }
}

pub fn path_from(xdg: Option<String>, home: Option<String>) -> (r: Option<String>)
    ensures
        opt_view(r) == config_path_text(opt_view(xdg), opt_view(home)),
{
    let base = match xdg {
        Some(x) if x.as_str().unicode_len() > 0 => Some(x),
        _ => match home {
            Some(h) => Some(path_join(h.as_str(), ".config")),
            None => None,
        },
    };
    match base {
        Some(b) => {
            let dir = path_join(b.as_str(), "video-trimmer");
            Some(path_join(dir.as_str(), "config.toml"))
        },
        None => None,
    }
}

/// The format chosen from the flag, the output's extension and the config
/// file's format (or the default), later sources winning.
pub open spec fn chosen_format(flag: Option<Format>, ext: Option<Seq<char>>, file_format: Format) -> Format {
    match flag {
        Some(f) => f,
        None => match ext {
            None => file_format,
            Some(e) => if lower(e) == lower(ext_text(file_format)) {
                file_format
            } else {
                match format_of_extension(e) {
                    Some(f) => f,
                    None => file_format,
                }
            },
        },
    }
}

/// Whether the output's extension must be rewritten: only for an explicit
/// `--format` whose extension the output does not already carry.
pub open spec fn rewrites_extension(flag: Option<Format>, ext: Option<Seq<char>>, format: Format) -> bool {
    flag is Some && !(ext matches Some(e) && lower(e) == lower(ext_text(format)))
}

pub open spec fn or_else<T>(a: Option<T>, b: Option<T>) -> Option<T> {
    match a {
        Some(x) => Some(x),
        None => b,
    }
}

pub open spec fn file_format(file: FileConfig) -> Format {
    match file.format {
        Some(f) => f,
        None => Format::Mp4,
    }
}

/// The extension of the `--output` path, if any.
pub open spec fn output_ext(cli: Cli) -> Option<Seq<char>> {
    match cli.output {
        Some(o) => path_extension_of(o@),
        None => None,
    }
}

pub open spec fn resolved_format(cli: Cli, file: FileConfig) -> Format {
    chosen_format(cli.format, output_ext(cli), file_format(file))
}

pub open spec fn resolved_output(cli: Cli, file: FileConfig) -> Option<Seq<char>> {
    match cli.output {
        None => None,
        Some(o) => if rewrites_extension(cli.format, output_ext(cli), resolved_format(cli, file)) {
            Some(path_set_extension_of(o@, ext_text(resolved_format(cli, file))).1)
        } else {
            Some(o@)
        },
    }
}

/// Precedence of the format, later sources winning: the flag decides when
/// given; without it an output extension of another known format decides;
/// otherwise (no extension, an unknown one, or the extension of the
/// file's own format) the config file's format (or the default) holds.
pub proof fn format_precedence(flag: Option<Format>, ext: Option<Seq<char>>, file_format: Format)
    ensures
        flag matches Some(f) ==> chosen_format(flag, ext, file_format) == f,
        flag is None && ext is None ==> chosen_format(flag, ext, file_format) == file_format,
        flag is None && (ext matches Some(e) && format_of_extension(e) is None) ==> chosen_format(
            flag,
            ext,
            file_format,
        ) == file_format,
        flag is None && (ext matches Some(e) && lower(e) == lower(ext_text(file_format)))
            ==> chosen_format(flag, ext, file_format) == file_format,
        flag is None ==> (ext matches Some(e) ==> (lower(e) != lower(ext_text(file_format)) ==> (
        format_of_extension(e) matches Some(g) ==> chosen_format(flag, ext, file_format) == g))),
{
}

/// The format chosen from the flag, the output extension and the file's format.
pub fn choose_format(flag: Option<Format>, ext: &Option<String>, file_format: Format) -> (r: Format)
    ensures
        r == chosen_format(flag, opt_view(*ext), file_format),
        flag matches Some(f) ==> r == f,
        flag is None && ext is None ==> r == file_format,
{
    match flag {
        Some(f) => f,
        None => match ext {
            None => file_format,
            Some(e) => {
                if eq_ignore_case(to_chars(e.as_str()).as_slice(), to_chars(file_format.extension()).as_slice()) {
                    file_format
                } else {
                    match Format::from_extension(e.as_str()) {
                        Some(f) => f,
                        None => file_format,
                    }
                }
            },
        },
    }
}

/// Whether an explicit format must rewrite the output's extension.
pub fn must_rewrite_extension(flag: Option<Format>, ext: &Option<String>, format: Format) -> (r: bool)
    ensures
        r == rewrites_extension(flag, opt_view(*ext), format),
{
    match flag {
        None => false,
        Some(_) => match ext {
            Some(e) => !eq_ignore_case(to_chars(e.as_str()).as_slice(), to_chars(format.extension()).as_slice()),
            None => true,
        },
    }
}

/// Precedence, later wins: built-in default, config file, output extension
/// (format only, when no `--format` flag), explicit flag. A `--format` flag
/// that disagrees with the output extension rewrites the extension.
pub fn resolve(cli: &Cli, file: &FileConfig) -> (r: Effective)
    ensures
        r.format == resolved_format(*cli, *file),
        opt_view(r.output) == resolved_output(*cli, *file),
        r.quality == (match or_else(cli.quality, file.quality) {
            Some(q) => q,
            None => Quality::Original,
        }),
        r.on_done == (match or_else(cli.on_done, file.on_done) {
            Some(d) => d,
            None => OnDone::Exit,
        }),
        // an explicit flag always wins
        cli.format matches Some(f) ==> r.format == f,
        // without a flag and without an output extension the config file's
        // format holds, or mp4 when the file has none
        cli.format is None && output_ext(*cli) is None ==> r.format == match file.format {
            Some(f) => f,
            None => Format::Mp4,
        },
        // with an explicit format and an output that has a file name, the
        // effective output carries that format's extension
        // without a flag, an output extension of a known format picks that
        // format, except that a configured stream copy keeps `.mp4`
        cli.format is None ==> (output_ext(*cli) matches Some(e) ==> (format_of_extension(e) matches Some(f)
            ==> (r.format == f || (f == Format::Mp4 && r.format == Format::Copy && file.format
            == Some(Format::Copy))))),
        // where the output ends in its file name, the rewritten output is the
        // output up to the file's stem, then `.` and the format's extension
        cli.format is Some && cli.output is Some && rewrites_extension(cli.format, output_ext(*cli), r.format)
            && file_name_of(cli.output->0@) is Some && has_suffix(cli.output->0@, file_name_of(cli.output->0@)->0)
            ==> r.output is Some && r.output->0@ == cli.output->0@.take(
            cli.output->0@.len() - file_name_of(cli.output->0@)->0.len(),
        ) + file_stem_of(file_name_of(cli.output->0@)->0) + "."@ + ext_text(r.format),
        cli.format is Some && cli.output is Some && file_name_of(cli.output->0@) is Some
            ==> (r.output is Some && (path_extension_of(r.output->0@) matches Some(e) && lower(e)
            == lower(ext_text(r.format)))),
{
    proof {
        reveal_strlit("mp4");
        reveal_strlit("webm");
        reveal_strlit("gif");
    }
    let extension = match &cli.output {
        Some(o) => path_extension(o.as_str()),
        None => None,
    };
    let file_format = match file.format {
        Some(f) => f,
        None => Format::default(),
    };
    let format = choose_format(cli.format, &extension, file_format);
    let output = match &cli.output {
        Some(o) => {
            if must_rewrite_extension(cli.format, &extension, format) {
                let (_, rewritten) = path_set_extension(o.as_str(), format.extension());
                Some(rewritten)
            } else {
                Some(o.clone())
            }
        },
        None => None,
    };
    let quality = match cli.quality {
        Some(q) => q,
        None => match file.quality {
            Some(q) => q,
            None => Quality::default(),
        },
    };
    let on_done = match cli.on_done {
        Some(d) => d,
        None => match file.on_done {
            Some(d) => d,
            None => OnDone::default(),
        },
    };
    proof {
        extension_implies_format(file_format);
    }
    Effective { format, quality, on_done, output }
}

} // verus!
