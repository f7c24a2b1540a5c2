//! What the desktop panel decides: what it logs after each button, how long
//! its log grows, and which face of a font file it uses for Chinese text.

use vstd::prelude::*;
use crate::model::opt_view;
use crate::text::{push_str, views};

verus! {

/// The most log lines the panel keeps before it drops old ones.
pub const MAX_LOG_LINES: usize = 500;

/// How many of the oldest lines go when the log grows past its limit.
pub const LOG_DROP: usize = 100;

/// The log after adding `line`: when it then holds more than
/// `MAX_LOG_LINES` lines, its oldest `LOG_DROP` go.
pub open spec fn log_after(logs: Seq<String>, line: String) -> Seq<String> {
    let l = logs.push(line);
    if l.len() > MAX_LOG_LINES {
        l.subrange(LOG_DROP as int, l.len() as int)
    } else {
        l
    }
}

/// Adds a line to the panel's log.
pub fn push_log(logs: &mut Vec<String>, line: String)
    ensures
        final(logs)@ == log_after(old(logs)@, line),
{
    logs.push(line);
    if logs.len() > MAX_LOG_LINES {
        let mut kept: Vec<String> = Vec::new();
        let mut rest = Vec::new();
        std::mem::swap(&mut rest, logs);
        let ghost all = rest@;
        let mut i: usize = 0;
        while rest.len() > 0
            invariant
                all.len() <= usize::MAX,
                i + rest@.len() == all.len(),
                rest@ == all.subrange(i as int, all.len() as int),
                kept@ == if i <= LOG_DROP {
                    Seq::<String>::empty()
                } else {
                    all.subrange(LOG_DROP as int, i as int)
                },
            decreases rest@.len(),
        {
            let x = rest.remove(0);
            assert(x == all[i as int]);
            assert(rest@ =~= all.subrange(i + 1, all.len() as int));
            if i >= LOG_DROP {
                kept.push(x);
                assert(kept@ =~= all.subrange(LOG_DROP as int, i + 1));
            }
            i += 1;
        }
        *logs = kept;
    }
}

/// The line the panel's log starts with.
pub fn ready_line() -> (r: String)
    ensures
        r@ == "就绪。填写 API ID/Hash，点「连接 TG」，再请求验证码登录。"@,
{
    let mut m = String::new();
    push_str(&mut m, "就绪。填写 API ID/Hash，点「连接 TG」，再请求验证码登录。");
    m
}

/// What a button of the panel came back with.
pub enum PanelEvent {
    /// "Request code": whether the code was sent.
    CodeRequested(Result<(), String>),
    /// "Sign in": the result, and whether a second-factor password is asked
    /// for afterwards.
    LoginSubmitted(Result<(), String>, bool),
    /// "Submit 2FA": the result.
    SecondFactorSubmitted(Result<(), String>),
    /// "Save settings": the result.
    SettingsSaved(Result<(), String>),
    /// "Start polling": the result.
    PollStarted(Result<(), String>),
}

/// The line the panel logs for what a button came back with, if any.
pub open spec fn panel_line(e: PanelEvent) -> Option<Seq<char>> {
    match e {
        PanelEvent::CodeRequested(Ok(())) => Some("验证码已发送，请输入后点「提交登录」"@),
        PanelEvent::CodeRequested(Err(m)) => Some("请求验证码失败: "@ + m@),
        PanelEvent::LoginSubmitted(Ok(()), true) => Some("需要二步验证密码，填写后点「提交 2FA」"@),
        PanelEvent::LoginSubmitted(Ok(()), false) => Some("Telegram 登录成功"@),
        PanelEvent::LoginSubmitted(Err(m), _) => Some("登录失败: "@ + m@),
        PanelEvent::SecondFactorSubmitted(Ok(())) => Some("二步验证完成，已登录"@),
        PanelEvent::SecondFactorSubmitted(Err(m)) => Some("2FA 失败: "@ + m@),
        PanelEvent::SettingsSaved(Ok(())) => None,
        PanelEvent::SettingsSaved(Err(m)) => Some("保存配置失败: "@ + m@),
        PanelEvent::PollStarted(Ok(())) => None,
        PanelEvent::PollStarted(Err(m)) => Some("启动轮询: "@ + m@),
    }
}

fn line_of(a: &str) -> (r: String)
    ensures
        r@ == a@,
{
    let mut m = String::new();
    push_str(&mut m, a);
    m
}

fn line_with(a: &str, b: &String) -> (r: String)
    ensures
        r@ == a@ + b@,
{
    let mut m = String::new();
    push_str(&mut m, a);
    push_str(&mut m, b.as_str());
    m
}

/// The line the panel logs for what a button came back with.
pub fn panel_log_line(e: &PanelEvent) -> (r: Option<String>)
    ensures
        opt_view(r) == panel_line(*e),
{
    match e {
        PanelEvent::CodeRequested(Ok(())) => Some(line_of("验证码已发送，请输入后点「提交登录」")),
        PanelEvent::CodeRequested(Err(m)) => Some(line_with("请求验证码失败: ", m)),
        PanelEvent::LoginSubmitted(Ok(()), pending) => if *pending {
            Some(line_of("需要二步验证密码，填写后点「提交 2FA」"))
        } else {
            Some(line_of("Telegram 登录成功"))
        },
        PanelEvent::LoginSubmitted(Err(m), _) => Some(line_with("登录失败: ", m)),
        PanelEvent::SecondFactorSubmitted(Ok(())) => Some(line_of("二步验证完成，已登录")),
        PanelEvent::SecondFactorSubmitted(Err(m)) => Some(line_with("2FA 失败: ", m)),
        PanelEvent::SettingsSaved(Ok(())) => None,
        PanelEvent::SettingsSaved(Err(m)) => Some(line_with("保存配置失败: ", m)),
        PanelEvent::PollStarted(Ok(())) => None,
        PanelEvent::PollStarted(Err(m)) => Some(line_with("启动轮询: ", m)),
    }
}

/// Whether ab_glyph reads face `index` of the font file `data`.
pub uninterp spec fn font_face_ok(data: Seq<u8>, index: u32) -> bool;

/// ab_glyph's `FontRef::try_from_slice_and_index`, telling only whether it
/// succeeded. The contract names the answer: it depends on the bytes and the
/// index alone.
#[verifier::external_body]
fn font_face_parses(data: &[u8], index: u32) -> (r: bool)
    ensures
        r == font_face_ok(data@, index),
{
    ab_glyph::FontRef::try_from_slice_and_index(data, index).is_ok()
}

/// The faces of a font file that are tried.
pub const MAX_FACES: u32 = 8;

/// The face of a font file that the panel uses: none for a file of under 100
/// bytes; else the first of faces 0 to 7 that reads.
pub open spec fn chosen_face(data: Seq<u8>, r: Option<u32>) -> bool {
    if data.len() < 100 {
        r is None
    } else {
        match r {
            Some(i) => i < MAX_FACES && font_face_ok(data, i) && forall|j: u32|
                j < i ==> !font_face_ok(data, j),
            None => forall|j: u32| j < MAX_FACES ==> !font_face_ok(data, j),
        }
    }
}

/// The face of a font file that the panel uses.
pub fn font_face_index(data: &[u8]) -> (r: Option<u32>)
    ensures
        chosen_face(data@, r),
{
    if data.len() < 100 {
        return None;
    }
    let mut idx: u32 = 0;
    while idx < MAX_FACES
        invariant
            idx <= MAX_FACES,
            data@.len() >= 100,
            forall|j: u32| j < idx ==> !font_face_ok(data@, j),
        decreases MAX_FACES - idx,
    {
        if font_face_parses(data, idx) {
            return Some(idx);
        }
        idx += 1;
    }
    None
}


/// The systems whose font folders the panel knows.
#[derive(Clone, Copy, Debug, PartialEq, Eq, Structural)]
pub enum Platform {
    Windows,
    Linux,
    MacOs,
    Other,
}

/// The Windows folder when the environment does not name one.
pub open spec fn windows_dir(windir: Option<Seq<char>>) -> Seq<char> {
    match windir {
        Some(w) => w,
        None => "C:\\Windows"@,
    }
}

/// The font files with Chinese glyphs that are tried, in order, on each
/// system; on Windows under its folder `windir`.
pub open spec fn font_candidate_paths(p: Platform, windir: Option<Seq<char>>) -> Seq<Seq<char>> {
    let w = windows_dir(windir);
    match p {
        Platform::Windows => seq![
            w + "\\Fonts\\msyh.ttc"@,
            w + "\\Fonts\\msyhbd.ttc"@,
            w + "\\Fonts\\simhei.ttf"@,
            w + "\\Fonts\\SIMHEI.TTF"@,
        ],
        Platform::Linux => seq![
            "/usr/share/fonts/opentype/noto/NotoSansCJK-Regular.ttc"@,
            "/usr/share/fonts/noto-cjk/NotoSansCJK-Regular.ttc"@,
            "/usr/share/fonts/truetype/noto/NotoSansCJK-Regular.ttc"@,
            "/usr/share/fonts/truetype/wqy/wqy-microhei.ttc"@,
        ],
        Platform::MacOs => seq![
            "/System/Library/Fonts/PingFang.ttc"@,
            "/System/Library/Fonts/STHeiti Light.ttc"@,
            "/Library/Fonts/Arial Unicode.ttf"@,
        ],
        Platform::Other => Seq::empty(),
    }
}

fn under(dir: &str, name: &str) -> (r: String)
    ensures
        r@ == dir@ + name@,
{
    let mut m = String::new();
    push_str(&mut m, dir);
    push_str(&mut m, name);
    m
}

/// The font files that are tried on `p`, in order.
pub fn font_candidates(p: Platform, windir: Option<&str>) -> (r: Vec<String>)
    ensures
        views(r@) == font_candidate_paths(
            p,
            match windir {
                Some(w) => Some(w@),
                None => None,
            },
        ),
{
    let mut r: Vec<String> = Vec::new();
    match p {
        Platform::Windows => {
            let w = match windir {
                Some(w) => w,
                None => "C:\\Windows",
            };
            r.push(under(w, "\\Fonts\\msyh.ttc"));
            r.push(under(w, "\\Fonts\\msyhbd.ttc"));
            r.push(under(w, "\\Fonts\\simhei.ttf"));
            r.push(under(w, "\\Fonts\\SIMHEI.TTF"));
        },
        Platform::Linux => {
            r.push(line_of("/usr/share/fonts/opentype/noto/NotoSansCJK-Regular.ttc"));
            r.push(line_of("/usr/share/fonts/noto-cjk/NotoSansCJK-Regular.ttc"));
            r.push(line_of("/usr/share/fonts/truetype/noto/NotoSansCJK-Regular.ttc"));
            r.push(line_of("/usr/share/fonts/truetype/wqy/wqy-microhei.ttc"));
        },
        Platform::MacOs => {
            r.push(line_of("/System/Library/Fonts/PingFang.ttc"));
            r.push(line_of("/System/Library/Fonts/STHeiti Light.ttc"));
            r.push(line_of("/Library/Fonts/Arial Unicode.ttf"));
        },
        Platform::Other => {},
    }
    proof {
        let ghost wv = match windir {
            Some(w) => Some(w@),
            None => None::<Seq<char>>,
        };
        assert(views(r@) =~= font_candidate_paths(p, wv));
    }
    r
}

/// The font the panel loads from candidate files, each read or not
/// (`None`): the first file that was read and has a face that reads, with
/// that face; none when no file has one.
pub open spec fn font_pick_ok(files: Seq<Option<Vec<u8>>>, r: Option<(usize, u32)>) -> bool {
    match r {
        Some((i, face)) => i < files.len() && (files[i as int] matches Some(d) && chosen_face(
            d@,
            Some(face),
        )) && forall|j: int|
            0 <= j < i ==> (#[trigger] files[j] matches Some(d) ==> chosen_face(d@, None)),
        None => forall|j: int|
            0 <= j < files.len() ==> (#[trigger] files[j] matches Some(d) ==> chosen_face(d@, None)),
    }
}

/// The font the panel loads from the candidate files that were read.
pub fn pick_font(files: &Vec<Option<Vec<u8>>>) -> (r: Option<(usize, u32)>)
    ensures
        font_pick_ok(files@, r),
{
    let mut i: usize = 0;
    while i < files.len()
        invariant
            i <= files@.len(),
            forall|j: int|
                0 <= j < i ==> (#[trigger] files@[j] matches Some(d) ==> chosen_face(d@, None)),
        decreases files@.len() - i,
    {
        match &files[i] {
            Some(d) => {
                match font_face_index(d.as_slice()) {
                    Some(face) => {
                        return Some((i, face));
                    },
                    None => {},
                }
            },
            None => {},
        }
        i += 1;
    }
    None
}

} // verus!
