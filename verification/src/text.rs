use vstd::prelude::*;
use vstd::string::StringExecFns;

verus! {

// ANSI escape sequences for terminal colors and text styles.

pub const BLACK: &'static str = "\x1b[30m";
pub const RED: &'static str = "\x1b[31m";
pub const GREEN: &'static str = "\x1b[32m";
pub const YELLOW: &'static str = "\x1b[33m";
pub const BLUE: &'static str = "\x1b[34m";
pub const MAGENTA: &'static str = "\x1b[35m";
pub const CYAN: &'static str = "\x1b[36m";
pub const WHITE: &'static str = "\x1b[37m";
pub const BRIGHT_BLACK: &'static str = "\x1b[90m";
pub const BRIGHT_RED: &'static str = "\x1b[91m";
pub const BRIGHT_GREEN: &'static str = "\x1b[92m";
pub const BRIGHT_YELLOW: &'static str = "\x1b[93m";
pub const BRIGHT_BLUE: &'static str = "\x1b[94m";
pub const BRIGHT_MAGENTA: &'static str = "\x1b[95m";
pub const BRIGHT_CYAN: &'static str = "\x1b[96m";
pub const BRIGHT_WHITE: &'static str = "\x1b[97m";
pub const BACKGROUND_RED: &'static str = "\x1b[41m";
pub const BACKGROUND_GREEN: &'static str = "\x1b[42m";
pub const BACKGROUND_YELLOW: &'static str = "\x1b[43m";
pub const BACKGROUND_BLUE: &'static str = "\x1b[44m";
pub const BACKGROUND_MAGENTA: &'static str = "\x1b[45m";
pub const BACKGROUND_CYAN: &'static str = "\x1b[46m";
pub const BACKGROUND_WHITE: &'static str = "\x1b[47m";
pub const BACKGROUND_BRIGHT_BLACK: &'static str = "\x1b[100m";
pub const BACKGROUND_BRIGHT_RED: &'static str = "\x1b[101m";
pub const BACKGROUND_BRIGHT_GREEN: &'static str = "\x1b[102m";
pub const BACKGROUND_BRIGHT_YELLOW: &'static str = "\x1b[103m";
pub const BACKGROUND_BRIGHT_BLUE: &'static str = "\x1b[104m";
pub const BACKGROUND_BRIGHT_MAGENTA: &'static str = "\x1b[105m";
pub const BACKGROUND_BRIGHT_CYAN: &'static str = "\x1b[106m";
pub const BACKGROUND_BRIGHT_WHITE: &'static str = "\x1b[107m";
pub const RESET: &'static str = "\x1b[0m";
pub const BOLD: &'static str = "\x1b[1m";
pub const DIM: &'static str = "\x1b[2m";
pub const UNDERLINE: &'static str = "\x1b[4m";
pub const BLINK: &'static str = "\x1b[5m";
pub const REVERSE: &'static str = "\x1b[7m";
pub const HIDDEN: &'static str = "\x1b[8m";

/// Text that can be wrapped in terminal styles: each method puts an ANSI escape
/// sequence before the text.
pub trait Style {
    /// The text that is styled.
    spec fn styled_text(&self) -> Seq<char>;

    /// The text preceded by the escape sequence `style`.
    fn style(&self, style: &str) -> (res: String)
        ensures
            res@ == style@ + self.styled_text(),
    ;

    fn black(&self) -> (res: String)
        ensures
            res@ == BLACK@ + self.styled_text(),
    {
        self.style(BLACK)
    }

    fn red(&self) -> (res: String)
        ensures
            res@ == RED@ + self.styled_text(),
    {
        self.style(RED)
    }

    fn green(&self) -> (res: String)
        ensures
            res@ == GREEN@ + self.styled_text(),
    {
        self.style(GREEN)
    }

    fn yellow(&self) -> (res: String)
        ensures
            res@ == YELLOW@ + self.styled_text(),
    {
        self.style(YELLOW)
    }

    fn blue(&self) -> (res: String)
        ensures
            res@ == BLUE@ + self.styled_text(),
    {
        self.style(BLUE)
    }

    fn magenta(&self) -> (res: String)
        ensures
            res@ == MAGENTA@ + self.styled_text(),
    {
        self.style(MAGENTA)
    }

    fn cyan(&self) -> (res: String)
        ensures
            res@ == CYAN@ + self.styled_text(),
    {
        self.style(CYAN)
    }

    fn white(&self) -> (res: String)
        ensures
            res@ == WHITE@ + self.styled_text(),
    {
        self.style(WHITE)
    }

    fn bright_black(&self) -> (res: String)
        ensures
            res@ == BRIGHT_BLACK@ + self.styled_text(),
    {
        self.style(BRIGHT_BLACK)
    }

    fn bright_red(&self) -> (res: String)
        ensures
            res@ == BRIGHT_RED@ + self.styled_text(),
    {
        self.style(BRIGHT_RED)
    }

    fn bright_green(&self) -> (res: String)
        ensures
            res@ == BRIGHT_GREEN@ + self.styled_text(),
    {
        self.style(BRIGHT_GREEN)
    }

    fn bright_yellow(&self) -> (res: String)
        ensures
            res@ == BRIGHT_YELLOW@ + self.styled_text(),
    {
        self.style(BRIGHT_YELLOW)
    }

    fn bright_blue(&self) -> (res: String)
        ensures
            res@ == BRIGHT_BLUE@ + self.styled_text(),
    {
        self.style(BRIGHT_BLUE)
    }

    fn bright_magenta(&self) -> (res: String)
        ensures
            res@ == BRIGHT_MAGENTA@ + self.styled_text(),
    {
        self.style(BRIGHT_MAGENTA)
    }

    fn bright_cyan(&self) -> (res: String)
        ensures
            res@ == BRIGHT_CYAN@ + self.styled_text(),
    {
        self.style(BRIGHT_CYAN)
    }

    fn bright_white(&self) -> (res: String)
        ensures
            res@ == BRIGHT_WHITE@ + self.styled_text(),
    {
        self.style(BRIGHT_WHITE)
    }

    fn bg_red(&self) -> (res: String)
        ensures
            res@ == BACKGROUND_RED@ + self.styled_text(),
    {
        self.style(BACKGROUND_RED)
    }

    fn bg_green(&self) -> (res: String)
        ensures
            res@ == BACKGROUND_GREEN@ + self.styled_text(),
    {
        self.style(BACKGROUND_GREEN)
    }

    fn bg_yellow(&self) -> (res: String)
        ensures
            res@ == BACKGROUND_YELLOW@ + self.styled_text(),
    {
        self.style(BACKGROUND_YELLOW)
    }

    fn bg_blue(&self) -> (res: String)
        ensures
            res@ == BACKGROUND_BLUE@ + self.styled_text(),
    {
        self.style(BACKGROUND_BLUE)
    }

    fn bg_magenta(&self) -> (res: String)
        ensures
            res@ == BACKGROUND_MAGENTA@ + self.styled_text(),
    {
        self.style(BACKGROUND_MAGENTA)
    }

    fn bg_cyan(&self) -> (res: String)
        ensures
            res@ == BACKGROUND_CYAN@ + self.styled_text(),
    {
        self.style(BACKGROUND_CYAN)
    }

    fn bg_white(&self) -> (res: String)
        ensures
            res@ == BACKGROUND_WHITE@ + self.styled_text(),
    {
        self.style(BACKGROUND_WHITE)
    }

    fn bg_bright_black(&self) -> (res: String)
        ensures
            res@ == BACKGROUND_BRIGHT_BLACK@ + self.styled_text(),
    {
        self.style(BACKGROUND_BRIGHT_BLACK)
    }

    fn bg_bright_red(&self) -> (res: String)
        ensures
            res@ == BACKGROUND_BRIGHT_RED@ + self.styled_text(),
    {
        self.style(BACKGROUND_BRIGHT_RED)
    }

    fn bg_bright_green(&self) -> (res: String)
        ensures
            res@ == BACKGROUND_BRIGHT_GREEN@ + self.styled_text(),
    {
        self.style(BACKGROUND_BRIGHT_GREEN)
    }

    fn bg_bright_yellow(&self) -> (res: String)
        ensures
            res@ == BACKGROUND_BRIGHT_YELLOW@ + self.styled_text(),
    {
        self.style(BACKGROUND_BRIGHT_YELLOW)
    }

    fn bg_bright_blue(&self) -> (res: String)
        ensures
            res@ == BACKGROUND_BRIGHT_BLUE@ + self.styled_text(),
    {
        self.style(BACKGROUND_BRIGHT_BLUE)
    }

    fn bg_bright_magenta(&self) -> (res: String)
        ensures
            res@ == BACKGROUND_BRIGHT_MAGENTA@ + self.styled_text(),
    {
        self.style(BACKGROUND_BRIGHT_MAGENTA)
    }

    fn bg_bright_cyan(&self) -> (res: String)
        ensures
            res@ == BACKGROUND_BRIGHT_CYAN@ + self.styled_text(),
    {
        self.style(BACKGROUND_BRIGHT_CYAN)
    }

    fn bg_bright_white(&self) -> (res: String)
        ensures
            res@ == BACKGROUND_BRIGHT_WHITE@ + self.styled_text(),
    {
        self.style(BACKGROUND_BRIGHT_WHITE)
    }

    fn reset(&self) -> (res: String)
        ensures
            res@ == RESET@ + self.styled_text(),
    {
        self.style(RESET)
    }

    fn bold(&self) -> (res: String)
        ensures
            res@ == BOLD@ + self.styled_text(),
    {
        self.style(BOLD)
    }

    fn dim(&self) -> (res: String)
        ensures
            res@ == DIM@ + self.styled_text(),
    {
        self.style(DIM)
    }

    fn underline(&self) -> (res: String)
        ensures
            res@ == UNDERLINE@ + self.styled_text(),
    {
        self.style(UNDERLINE)
    }

    fn blink(&self) -> (res: String)
        ensures
            res@ == BLINK@ + self.styled_text(),
    {
        self.style(BLINK)
    }

    fn reverse(&self) -> (res: String)
        ensures
            res@ == REVERSE@ + self.styled_text(),
    {
        self.style(REVERSE)
    }

    fn hidden(&self) -> (res: String)
        ensures
            res@ == HIDDEN@ + self.styled_text(),
    {
        self.style(HIDDEN)
    }
}

impl Style for str {
    open spec fn styled_text(&self) -> Seq<char> {
        self@
    }

    fn style(&self, style: &str) -> (res: String) {
        let mut s = String::new();
        s.append(style);
        s.append(self);
        s
    }
}

impl Style for String {
    open spec fn styled_text(&self) -> Seq<char> {
        self@
    }

    fn style(&self, style: &str) -> (res: String) {
        let mut s = String::new();
        s.append(style);
        s.append(self.as_str());
        s
    }
}

} // verus!
