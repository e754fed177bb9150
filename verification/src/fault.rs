//! Crash cuts for qualification. `FOCAL_FAULT=<site>:<n>` aborts a process
//! the `n`-th time execution reaches `site`; the sites sit at the durable
//! boundaries a lost reply can straddle.
use crate::text::same_text;
use vstd::prelude::*;
use vstd::string::StrSliceExecFns;

verus! {

/// Where a cut may fall on the native mutation path.
#[derive(Debug, Clone, Copy, PartialEq, Eq, Structural)]
pub enum FaultSite {
    /// The frame was received and admitted syntactically; nothing proposed.
    BeforePropose,
    /// The owner committed and published the outcome; no reply was written.
    AfterCommitBeforeReply,
}

/// The name a site is configured by.
pub open spec fn site_text(site: FaultSite) -> Seq<char> {
    match site {
        FaultSite::BeforePropose => "before-propose"@,
        FaultSite::AfterCommitBeforeReply => "after-commit-before-reply"@,
    }
}

impl FaultSite {
    /// The name the site is configured by.
    pub fn name(self) -> (name: &'static str)
        ensures
            name@ == site_text(self),
    {
        match self {
            FaultSite::BeforePropose => "before-propose",
            FaultSite::AfterCommitBeforeReply => "after-commit-before-reply",
        }
    }

    /// The site's counter.
    pub fn index(self) -> (index: usize)
        ensures
            index == (match self {
                FaultSite::BeforePropose => 0int,
                FaultSite::AfterCommitBeforeReply => 1int,
            }),
    {
        match self {
            FaultSite::BeforePropose => 0,
            FaultSite::AfterCommitBeforeReply => 1,
        }
    }
}

/// The site of a name.
pub open spec fn site_of(name: Seq<char>) -> Option<FaultSite> {
    if name == site_text(FaultSite::BeforePropose) {
        Some(FaultSite::BeforePropose)
    } else if name == site_text(FaultSite::AfterCommitBeforeReply) {
        Some(FaultSite::AfterCommitBeforeReply)
    } else {
        None
    }
}

/// Whether a text is made of decimal digits.
pub open spec fn all_digits(text: Seq<char>) -> bool {
    forall|i: int| 0 <= i < text.len() ==> '0' <= #[trigger] text[i] && text[i] <= '9'
}

/// The number decimal digits write.
pub open spec fn digits_value(text: Seq<char>) -> nat
    decreases text.len(),
{
    if text.len() == 0 {
        0
    } else {
        digits_value(text.drop_last()) * 10 + ((text.last() as u32) - 48) as nat
    }
}

/// The digits of a number's text: a leading plus is passed over.
pub open spec fn unsigned_digits(text: Seq<char>) -> Seq<char> {
    if text.len() > 0 && text[0] == '+' {
        text.skip(1)
    } else {
        text
    }
}

/// The `u32` a text writes.
pub open spec fn number_of(text: Seq<char>) -> Option<u32> {
    let digits = unsigned_digits(text);
    if digits.len() > 0 && all_digits(digits) && digits_value(digits) <= u32::MAX {
        Some(digits_value(digits) as u32)
    } else {
        None
    }
}

proof fn lemma_digits_grow(text: Seq<char>, n: int)
    requires
        0 <= n <= text.len(),
        all_digits(text),
    ensures
        digits_value(text.take(n)) <= digits_value(text),
    decreases text.len(),
{
    if n < text.len() {
        let front = text.drop_last();
        assert(all_digits(front)) by {
            assert forall|i: int| 0 <= i < front.len() implies '0' <= #[trigger] front[i]
                && front[i] <= '9' by {
                assert(front[i] == text[i]);
            }
        }
        lemma_digits_grow(front, n);
        assert(front.take(n) =~= text.take(n));
        assert(digits_value(front) <= digits_value(front) * 10);
    } else {
        assert(text.take(n) =~= text);
    }
}

/// Read a `u32` in decimal.
pub fn parse_number(text: &str) -> (number: Option<u32>)
    ensures
        number == number_of(text@),
{
    let count: usize = text.unicode_len();
    let mut from: usize = 0;
    if count > 0 && text.get_char(0) == '+' {
        from = 1;
    }
    let ghost digits = unsigned_digits(text@);
    assert(digits =~= text@.skip(from as int));
    if from == count {
        return None;
    }
    let mut value: u32 = 0;
    let mut i: usize = from;
    assert(digits.take(0) =~= Seq::<char>::empty());
    while i < count
        invariant
            from <= i <= count,
            count == text@.len(),
            digits == text@.skip(from as int),
            digits == unsigned_digits(text@),
            forall|j: int|
                0 <= j < i - from ==> '0' <= #[trigger] digits[j] && digits[j] <= '9',
            value == digits_value(digits.take(i - from)),
        decreases count - i,
    {
        let c = text.get_char(i);
        let ghost at = i - from;
        assert(digits[at] == c);
        if !('0' <= c && c <= '9') {
            return None;
        }
        let digit: u32 = c as u32 - 48;
        proof {
            assert(digits.take(at + 1).drop_last() =~= digits.take(at));
            assert(digits.take(at + 1).last() == c);
            if all_digits(digits) {
                lemma_digits_grow(digits, at + 1);
            }
        }
        if value > 429496729 || (value == 429496729 && digit > 5) {
            return None;
        }
        value = value * 10 + digit;
        i += 1;
    }
    assert(digits.take(digits.len() as int) =~= digits);
    Some(value)
}

/// The position of the first colon.
pub open spec fn colon(text: Seq<char>, from: int) -> Option<int>
    decreases text.len() - from,
{
    if from < 0 || from >= text.len() {
        None
    } else if text[from] == ':' {
        Some(from)
    } else {
        colon(text, from + 1)
    }
}

/// The cut a text configures.
pub open spec fn cut_of(text: Seq<char>) -> Option<(FaultSite, u32)> {
    match colon(text, 0) {
        None => None,
        Some(at) => match (site_of(text.take(at)), number_of(text.skip(at + 1))) {
            (Some(site), Some(count)) => if count > 0 {
                Some((site, count))
            } else {
                None
            },
            _ => None,
        },
    }
}

/// The configured cut.
pub fn configured(text: &str) -> (cut: Option<(FaultSite, u32)>)
    ensures
        cut == cut_of(text@),
{
    let count: usize = text.unicode_len();
    let mut at: usize = 0;
    while at < count
        invariant
            at <= count,
            count == text@.len(),
            colon(text@, 0) == colon(text@, at as int),
        decreases count - at,
    {
        if text.get_char(at) == ':' {
            let name = text.substring_char(0, at);
            let number = text.substring_char(at + 1, count);
            assert(name@ =~= text@.take(at as int));
            assert(number@ =~= text@.skip(at + 1));
            let site = if same_text(name, FaultSite::BeforePropose.name()) {
                FaultSite::BeforePropose
            } else if same_text(name, FaultSite::AfterCommitBeforeReply.name()) {
                FaultSite::AfterCommitBeforeReply
            } else {
                return None;
            };
            return match parse_number(number) {
                None => None,
                Some(n) => if n > 0 {
                    Some((site, n))
                } else {
                    None
                },
            };
        }
        at += 1;
    }
    None
}

/// Arrivals at the configured site.
#[derive(Debug, Clone, Copy, PartialEq, Eq)]
pub struct FaultCounter {
    pub cut: Option<(FaultSite, u32)>,
    pub arrivals: u32,
}

impl FaultCounter {
    /// No arrival yet.
    pub fn new(cut: Option<(FaultSite, u32)>) -> (counter: Self)
        ensures
            counter == (FaultCounter { cut, arrivals: 0 }),
    {
        FaultCounter { cut, arrivals: 0 }
    }

    /// Arrive at `site`: whether this is the configured arrival, at which the
    /// process is aborted. Arrivals elsewhere are not counted.
    pub fn hit(&mut self, site: FaultSite) -> (abort: bool)
        ensures
            final(self).cut == old(self).cut,
            match old(self).cut {
                Some((wanted, count)) => if wanted == site {
                    &&& final(self).arrivals == (if old(self).arrivals == u32::MAX {
                        0
                    } else {
                        old(self).arrivals + 1
                    })
                    &&& abort == (count == (if old(self).arrivals == u32::MAX {
                        u32::MAX as int
                    } else {
                        old(self).arrivals + 1
                    }))
                } else {
                    !abort && final(self).arrivals == old(self).arrivals
                },
                None => !abort && final(self).arrivals == old(self).arrivals,
            },
    {
        let (wanted, count) = match self.cut {
            None => {
                return false;
            },
            Some(cut) => cut,
        };
        if wanted != site {
            return false;
        }
        let before: u32 = self.arrivals;
        self.arrivals = if before == u32::MAX {
            0
        } else {
            before + 1
        };
        let reached: u32 = if before == u32::MAX {
            u32::MAX
        } else {
            before + 1
        };
        reached == count
    }
}

/// A cut that is set is read back: the name of its site, a colon, and the count
/// of the arrival in decimal.
pub proof fn a_cut_is_read_back(site: FaultSite, count: u32)
    requires
        count > 0,
    ensures
        cut_of(site_text(site) + ":"@ + crate::text::decimal_text(count as nat)) == Some(
            (site, count),
        ),
{
    let name = site_text(site);
    let digits = crate::text::decimal_text(count as nat);
    let text = name + ":"@ + digits;
    reveal_strlit("before-propose");
    reveal_strlit("after-commit-before-reply");
    reveal_strlit(":");
    let n = name.len() as int;
    assert(text[n] == ':');
    assert forall|i: int| 0 <= i < n implies #[trigger] text[i] != ':' by {
        assert(text[i] == name[i]);
    }
    lemma_colon(text, 0, n);
    assert(text.take(n) =~= name);
    assert(text.skip(n + 1) =~= digits);
    assert(site_text(FaultSite::BeforePropose).len() != site_text(
        FaultSite::AfterCommitBeforeReply,
    ).len());
    crate::text::a_number_is_read_back(count as nat);
    assert(digits[0] != '+');
    lemma_digits_read(digits);
}

proof fn lemma_colon(text: Seq<char>, from: int, at: int)
    requires
        0 <= from <= at < text.len(),
        text[at] == ':',
        forall|i: int| from <= i < at ==> #[trigger] text[i] != ':',
    ensures
        colon(text, from) == Some(at),
    decreases at - from,
{
    if from < at {
        lemma_colon(text, from + 1, at);
    }
}

proof fn lemma_digits_read(text: Seq<char>)
    requires
        all_digits(text),
    ensures
        digits_value(text) == crate::text::decimal_value(text),
    decreases text.len(),
{
    if text.len() > 0 {
        lemma_digits_read(text.drop_last());
    }
}

} // verus!
