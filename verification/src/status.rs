//! The status line and the output log of the editor.
use vstd::prelude::*;
use vstd::string::*;
use crate::StatusTone;
use crate::paths::views;
use crate::text::{contains_str, seq_contains};
use crate::theme::{palette, theme_colors, Rgba};

verus! {

/// The most lines the output log keeps.
pub const MAX_OUTPUT_LINES: usize = 200;

/// The level tag written in front of an output line.
pub open spec fn level_text(tone: StatusTone) -> Seq<char> {
    match tone {
        StatusTone::Info => seq!['I', 'N', 'F', 'O'],
        StatusTone::Success => seq!['O', 'K'],
        StatusTone::Warning => seq!['W', 'A', 'R', 'N'],
        StatusTone::Error => seq!['E', 'R', 'R', 'O', 'R'],
    }
}

/// The level tag of a tone: `INFO`, `OK`, `WARN` or `ERROR`.
pub fn output_level(tone: StatusTone) -> (r: &'static str)
    ensures
        r@ == level_text(tone),
{
    proof {
        reveal_strlit("INFO");
        reveal_strlit("OK");
        reveal_strlit("WARN");
        reveal_strlit("ERROR");
    }
    match tone {
        StatusTone::Info => {
            assert("INFO"@ =~= level_text(tone));
            "INFO"
        },
        StatusTone::Success => {
            assert("OK"@ =~= level_text(tone));
            "OK"
        },
        StatusTone::Warning => {
            assert("WARN"@ =~= level_text(tone));
            "WARN"
        },
        StatusTone::Error => {
            assert("ERROR"@ =~= level_text(tone));
            "ERROR"
        },
    }
}

/// An output line: `[<LEVEL>] <message>`.
pub open spec fn output_line(tone: StatusTone, message: Seq<char>) -> Seq<char> {
    seq!['['] + level_text(tone) + seq![']', ' '] + message
}

/// The last `MAX_OUTPUT_LINES` lines of `lines` (all of them when there are fewer).
pub open spec fn kept_lines<T>(lines: Seq<T>) -> Seq<T> {
    if lines.len() > MAX_OUTPUT_LINES {
        lines.skip(lines.len() - MAX_OUTPUT_LINES)
    } else {
        lines
    }
}

/// Drops the oldest lines so that at most `MAX_OUTPUT_LINES` remain.
pub fn trim_output(output: &mut Vec<String>)
    ensures
        final(output)@ == kept_lines(old(output)@),
{
    if output.len() > MAX_OUTPUT_LINES {
        let drain_count = output.len() - MAX_OUTPUT_LINES;
        let mut kept: Vec<String> = Vec::new();
        let mut i: usize = drain_count;
        while i < output.len()
            invariant
                drain_count <= i <= output.len(),
                kept@ == output@.subrange(drain_count as int, i as int),
            decreases output.len() - i,
        {
            kept.push(output[i].clone());
            i = i + 1;
            assert(kept@ =~= output@.subrange(drain_count as int, i as int));
        }
        assert(kept@ =~= output@.skip(drain_count as int));
        *output = kept;
    }
}

/// The tone an output line is shown in, judged from its level tag.
pub open spec fn line_tone_color(line: Seq<char>) -> Rgba {
    if seq_contains(line, seq!['[', 'E', 'R', 'R', 'O', 'R', ']']) {
        palette().error
    } else if seq_contains(line, seq!['[', 'W', 'A', 'R', 'N', ']']) {
        palette().warning
    } else if seq_contains(line, seq!['[', 'O', 'K', ']']) {
        palette().success
    } else {
        palette().text_secondary
    }
}

/// The colour an output line is shown in: errors, warnings and successes
/// in their tone's colour, everything else in the secondary text colour.
pub fn output_color(line: &str) -> (c: Rgba)
    ensures
        c == line_tone_color(line@),
{
    let colors = theme_colors();
    proof {
        reveal_strlit("[ERROR]");
        reveal_strlit("[WARN]");
        reveal_strlit("[OK]");
        assert("[ERROR]"@ =~= seq!['[', 'E', 'R', 'R', 'O', 'R', ']']);
        assert("[WARN]"@ =~= seq!['[', 'W', 'A', 'R', 'N', ']']);
        assert("[OK]"@ =~= seq!['[', 'O', 'K', ']']);
    }
    if contains_str(line, "[ERROR]") {
        colors.error
    } else if contains_str(line, "[WARN]") {
        colors.warning
    } else if contains_str(line, "[OK]") {
        colors.success
    } else {
        colors.text_secondary
    }
}

pub open spec fn started_text() -> Seq<char> {
    seq!['C', 'r', 'a', 'b', '2', 'D', ' ', 'e', 'd', 'i', 't', 'o', 'r', ' ', 's', 't', 'a', 'r', 't', 'e', 'd']
}

pub open spec fn starter_scene_text() -> Seq<char> {
    seq!['S', 't', 'a', 'r', 't', 'e', 'r', ' ', 's', 'c', 'e', 'n', 'e', ' ', 'l', 'o', 'a', 'd', 'e', 'd']
}

pub open spec fn transform_updated_text() -> Seq<char> {
    seq!['T', 'r', 'a', 'n', 's', 'f', 'o', 'r', 'm', ' ', 'u', 'p', 'd', 'a', 't', 'e', 'd']
}

/// The status line and output log of the editor.
pub struct StatusLog {
    pub status: String,
    pub tone: StatusTone,
    pub output: Vec<String>,
    pub last_asset_error: Option<String>,
}

/// What the log holds after a status message: the message becomes the
/// status, and a non-empty message is appended as an output line, keeping
/// the last `MAX_OUTPUT_LINES` lines.
pub open spec fn after_status(
    output: Seq<Seq<char>>,
    message: Seq<char>,
    tone: StatusTone,
) -> Seq<Seq<char>> {
    if message.len() == 0 {
        output
    } else {
        kept_lines(output.push(output_line(tone, message)))
    }
}

/// The view of an optional string.
pub open spec fn opt_text(o: Option<String>) -> Option<Seq<char>> {
    match o {
        Some(s) => Some(s@),
        None => None,
    }
}

/// The last reported asset error and the output log after `message` is
/// reported as an asset error: nothing changes when it repeats the asset
/// error reported last; otherwise it becomes the last asset error and is
/// logged as an error status.
pub open spec fn asset_error_reported(
    last: Option<Seq<char>>,
    output: Seq<Seq<char>>,
    message: Seq<char>,
) -> (Option<Seq<char>>, Seq<Seq<char>>) {
    if last == Some(message) {
        (last, output)
    } else {
        (Some(message), after_status(output, message, StatusTone::Error))
    }
}

/// A non-empty status message becomes the newest line of the output log,
/// and the log, if it was within `MAX_OUTPUT_LINES`, stays within it.
pub proof fn law_status_message_is_newest_line(
    output: Seq<Seq<char>>,
    message: Seq<char>,
    tone: StatusTone,
)
    requires
        output.len() <= MAX_OUTPUT_LINES,
        message.len() > 0,
    ensures
        after_status(output, message, tone).len() > 0,
        after_status(output, message, tone).len() <= MAX_OUTPUT_LINES,
        after_status(output, message, tone).last() == output_line(tone, message),
{
    let pushed = output.push(output_line(tone, message));
    if pushed.len() > MAX_OUTPUT_LINES {
        let kept = pushed.skip(pushed.len() - MAX_OUTPUT_LINES);
        assert(kept.last() == pushed.last());
    }
}

/// Reporting the same asset error twice in a row logs it once: the second
/// report changes nothing.
pub proof fn law_repeated_asset_error_is_logged_once(
    last: Option<Seq<char>>,
    output: Seq<Seq<char>>,
    message: Seq<char>,
)
    ensures
        ({
            let once = asset_error_reported(last, output, message);
            asset_error_reported(once.0, once.1, message) == once
        }),
{
}

impl StatusLog {
    /// The log is never longer than `MAX_OUTPUT_LINES`.
    pub open spec fn wf(&self) -> bool {
        self.output.len() <= MAX_OUTPUT_LINES
    }

    /// The log of a freshly started editor.
    pub fn new() -> (log: Self)
        ensures
            log.wf(),
            log.status@ == seq!['R', 'e', 'a', 'd', 'y'],
            log.tone == StatusTone::Info,
            views(log.output@) == seq![
                output_line(StatusTone::Info, started_text()),
                output_line(StatusTone::Info, starter_scene_text()),
            ],
            log.last_asset_error is None,
    {
        let mut output: Vec<String> = Vec::new();
        output.push(String::from_str("[INFO] Crab2D editor started"));
        output.push(String::from_str("[INFO] Starter scene loaded"));
        proof {
            reveal_strlit("Ready");
            reveal_strlit("[INFO] Crab2D editor started");
            reveal_strlit("[INFO] Starter scene loaded");
            assert(output@[0]@ =~= output_line(StatusTone::Info, started_text()));
            assert(output@[1]@ =~= output_line(StatusTone::Info, starter_scene_text()));
            assert(views(output@) =~= seq![
                output_line(StatusTone::Info, started_text()),
                output_line(StatusTone::Info, starter_scene_text()),
            ]);
        }
        StatusLog {
            status: String::from_str("Ready"),
            tone: StatusTone::Info,
            output,
            last_asset_error: None,
        }
    }

    /// Shows `message` in the status line with `tone` and, when it is not
    /// empty, appends `[<LEVEL>] <message>` to the output log.
    pub fn push_status(&mut self, message: String, tone: StatusTone)
        ensures
            old(self).wf() ==> final(self).wf(),
            message@.len() > 0 ==> final(self).wf(),
            final(self).status@ == message@,
            final(self).tone == tone,
            views(final(self).output@) == after_status(views(old(self).output@), message@, tone),
            final(self).last_asset_error == old(self).last_asset_error,
    {
        let empty = message.as_str().unicode_len() == 0;
        if !empty {
            let mut line = String::from_str("[");
            line.append(output_level(tone));
            line.append("] ");
            line.append(message.as_str());
            proof {
                reveal_strlit("[");
                reveal_strlit("] ");
                assert(line@ =~= output_line(tone, message@));
            }
            let ghost before = self.output@;
            self.output.push(line);
            assert(views(self.output@) =~= views(before).push(output_line(tone, message@)));
            trim_output(&mut self.output);
            proof {
                let pushed = views(before).push(output_line(tone, message@));
                if before.len() + 1 > MAX_OUTPUT_LINES {
                    assert(views(self.output@) =~= pushed.skip(pushed.len() - MAX_OUTPUT_LINES));
                }
            }
        }
        self.status = message;
        self.tone = tone;
    }

    /// An informational status message.
    pub fn set_status(&mut self, message: String)
        ensures
            old(self).wf() ==> final(self).wf(),
            message@.len() > 0 ==> final(self).wf(),
            final(self).status@ == message@,
            final(self).tone == StatusTone::Info,
            views(final(self).output@) == after_status(
                views(old(self).output@),
                message@,
                StatusTone::Info,
            ),
            final(self).last_asset_error == old(self).last_asset_error,
    {
        self.push_status(message, StatusTone::Info);
    }

    /// A success message.
    pub fn set_success(&mut self, message: String)
        ensures
            old(self).wf() ==> final(self).wf(),
            message@.len() > 0 ==> final(self).wf(),
            final(self).status@ == message@,
            final(self).tone == StatusTone::Success,
            views(final(self).output@) == after_status(
                views(old(self).output@),
                message@,
                StatusTone::Success,
            ),
            final(self).last_asset_error == old(self).last_asset_error,
    {
        self.push_status(message, StatusTone::Success);
    }

    /// An error message.
    pub fn set_error(&mut self, message: String)
        ensures
            old(self).wf() ==> final(self).wf(),
            message@.len() > 0 ==> final(self).wf(),
            final(self).status@ == message@,
            final(self).tone == StatusTone::Error,
            views(final(self).output@) == after_status(
                views(old(self).output@),
                message@,
                StatusTone::Error,
            ),
            final(self).last_asset_error == old(self).last_asset_error,
    {
        self.push_status(message, StatusTone::Error);
    }

    /// Shows `Transform updated` in the status line, in the Info tone,
    /// without adding an output line (what the transform inspector shows
    /// after an edit is recorded).
    pub fn report_transform_updated(&mut self)
        ensures
            final(self).status@ == transform_updated_text(),
            final(self).tone == StatusTone::Info,
            final(self).output == old(self).output,
            final(self).last_asset_error == old(self).last_asset_error,
    {
        proof {
            reveal_strlit("Transform updated");
            assert("Transform updated"@ =~= transform_updated_text());
        }
        self.status = String::from_str("Transform updated");
        self.tone = StatusTone::Info;
    }

    /// Reports an asset error, unless it is the same message as the asset
    /// error reported last, which is not repeated.
    pub fn report_asset_error(&mut self, message: String)
        ensures
            old(self).wf() ==> final(self).wf(),
            message@.len() > 0 && opt_text(old(self).last_asset_error) != Some(message@)
                ==> final(self).wf(),
            (opt_text(final(self).last_asset_error), views(final(self).output@))
                == asset_error_reported(
                opt_text(old(self).last_asset_error),
                views(old(self).output@),
                message@,
            ),
            match old(self).last_asset_error {
                Some(previous) if previous@ == message@ => *final(self) == *old(self),
                _ => {
                    &&& final(self).last_asset_error matches Some(e) && e@ == message@
                    &&& final(self).status@ == message@
                    &&& final(self).tone == StatusTone::Error
                    &&& views(final(self).output@) == after_status(
                        views(old(self).output@),
                        message@,
                        StatusTone::Error,
                    )
                },
            },
    {
        let repeated = match &self.last_asset_error {
            Some(previous) => *previous == message,
            None => false,
        };
        if repeated {
            return;
        }
        self.last_asset_error = Some(message.clone());
        self.push_status(message, StatusTone::Error);
    }
}

} // verus!
