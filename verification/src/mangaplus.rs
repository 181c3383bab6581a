//! MANGA Plus: the labels, schedules and ratings of its titles, and what the
//! source derives from a title's detail view.
use vstd::prelude::*;

use crate::text::{
    chars_eq, chars_of, contains_seq, find_chars, lowercase, split_two, split_two_chars, string_of,
    to_lowercase, trim, trim_chars,
};

verus! {

/// How often a title is published.
#[derive(Debug, Clone, Copy, PartialEq, Eq, Structural)]
pub enum ReleaseSchedule {
    Disabled,
    Everyday,
    Weekly,
    Biweekly,
    Monthly,
    Bimonthly,
    Trimonthly,
    Other,
    Completed,
}

impl Default for ReleaseSchedule {
    fn default() -> (r: Self)
        ensures
            r == ReleaseSchedule::Disabled,
    {
        ReleaseSchedule::Disabled
    }
}

impl ReleaseSchedule {
    /// The display name of a schedule.
    pub open spec fn name(self) -> Seq<char> {
        match self {
            ReleaseSchedule::Disabled => "Disabled"@,
            ReleaseSchedule::Everyday => "Everyday"@,
            ReleaseSchedule::Weekly => "Weekly"@,
            ReleaseSchedule::Biweekly => "Biweekly"@,
            ReleaseSchedule::Monthly => "Monthly"@,
            ReleaseSchedule::Bimonthly => "Bimonthly"@,
            ReleaseSchedule::Trimonthly => "Trimonthly"@,
            ReleaseSchedule::Other => "Other"@,
            ReleaseSchedule::Completed => "Completed"@,
        }
    }

    /// The display name of this schedule.
    pub fn to_str(&self) -> (r: &'static str)
        ensures
            r@ == self.name(),
    {
        match self {
            ReleaseSchedule::Disabled => "Disabled",
            ReleaseSchedule::Everyday => "Everyday",
            ReleaseSchedule::Weekly => "Weekly",
            ReleaseSchedule::Biweekly => "Biweekly",
            ReleaseSchedule::Monthly => "Monthly",
            ReleaseSchedule::Bimonthly => "Bimonthly",
            ReleaseSchedule::Trimonthly => "Trimonthly",
            ReleaseSchedule::Other => "Other",
            ReleaseSchedule::Completed => "Completed",
        }
    }
}

/// The age rating of a title.
#[derive(Debug, Clone, Copy, PartialEq, Eq, Structural)]
pub enum Rating {
    AllAge,
    Teen,
    TeenPlus,
    Mature,
}

impl Default for Rating {
    fn default() -> (r: Self)
        ensures
            r == Rating::AllAge,
    {
        Rating::AllAge
    }
}

impl Rating {
    /// The display name of a rating.
    pub open spec fn name(self) -> Seq<char> {
        match self {
            Rating::AllAge => "All Ages"@,
            Rating::Teen => "Teen"@,
            Rating::TeenPlus => "Teen+"@,
            Rating::Mature => "Mature"@,
        }
    }

    /// The display name of this rating.
    pub fn to_str(&self) -> (r: &'static str)
        ensures
            r@ == self.name(),
    {
        match self {
            Rating::AllAge => "All Ages",
            Rating::Teen => "Teen",
            Rating::TeenPlus => "Teen+",
            Rating::Mature => "Mature",
        }
    }
}

/// The magazine (label) a title runs in.
#[derive(Debug, Clone, Copy, PartialEq, Eq, Structural)]
pub enum LabelCode {
    Creators,
    Giga,
    JPlus,
    Others,
    Revival,
    SaikyoJump,
    JumpSquare,
    TonariNoYoungJump,
    VJump,
    WeeklyYoungJump,
    WeeklyShonenJump,
    UltraJump,
    DashX,
    MangaMee,
}

/// A title's label.
#[derive(Debug, Clone, Copy, PartialEq, Eq, Structural)]
pub struct Label {
    pub label: Option<LabelCode>,
}

/// The magazine name shown as a genre, for the labels that name one.
pub open spec fn magazine_name(code: Option<LabelCode>) -> Option<Seq<char>> {
    match code {
        Some(LabelCode::WeeklyShonenJump) => Some("Weekly Shounen Jump"@),
        Some(LabelCode::JumpSquare) => Some("Jump SQ."@),
        Some(LabelCode::VJump) => Some("V Jump"@),
        Some(LabelCode::Giga) => Some("Shounen Jump GIGA"@),
        Some(LabelCode::WeeklyYoungJump) => Some("Weekly Young Jump"@),
        Some(LabelCode::TonariNoYoungJump) => Some("Tonari no Young Jump"@),
        Some(LabelCode::JPlus) => Some("Shounen Jump+"@),
        Some(LabelCode::Creators) => Some("MANGA Plus Creators"@),
        Some(LabelCode::SaikyoJump) => Some("Saikyou Jump"@),
        Some(LabelCode::UltraJump) => Some("Ultra Jump"@),
        Some(LabelCode::DashX) => Some("Dash X Comic"@),
        Some(LabelCode::MangaMee) => Some("Manga Mee"@),
        _ => None,
    }
}

impl Label {
    /// The magazine name of this label, if it names one.
    pub fn magazine(&self) -> (r: Option<&'static str>)
        ensures
            match r {
                Some(s) => magazine_name(self.label) == Some(s@),
                None => magazine_name(self.label) is None,
            },
    {
        match self.label {
            Some(LabelCode::WeeklyShonenJump) => Some("Weekly Shounen Jump"),
            Some(LabelCode::JumpSquare) => Some("Jump SQ."),
            Some(LabelCode::VJump) => Some("V Jump"),
            Some(LabelCode::Giga) => Some("Shounen Jump GIGA"),
            Some(LabelCode::WeeklyYoungJump) => Some("Weekly Young Jump"),
            Some(LabelCode::TonariNoYoungJump) => Some("Tonari no Young Jump"),
            Some(LabelCode::JPlus) => Some("Shounen Jump+"),
            Some(LabelCode::Creators) => Some("MANGA Plus Creators"),
            Some(LabelCode::SaikyoJump) => Some("Saikyou Jump"),
            Some(LabelCode::UltraJump) => Some("Ultra Jump"),
            Some(LabelCode::DashX) => Some("Dash X Comic"),
            Some(LabelCode::MangaMee) => Some("Manga Mee"),
            _ => None,
        }
    }
}

/// The languages MANGA Plus publishes in.
#[derive(Debug, Clone, Copy, PartialEq, Eq, Structural)]
pub enum Language {
    English,
    Spanish,
    French,
    Indonesian,
    BrazilianPortuguese,
    Russian,
    Thai,
    Vietnamese,
    German,
}

impl Default for Language {
    fn default() -> (r: Self)
        ensures
            r == Language::English,
    {
        Language::English
    }
}

/// Schedule and simulcast flags of a title.
#[derive(Debug, Clone, Copy, PartialEq, Eq, Structural)]
pub struct TitleLabels {
    pub release_schedule: ReleaseSchedule,
    pub is_simulpub: bool,
}

impl Default for TitleLabels {
    fn default() -> (r: Self)
        ensures
            r.release_schedule == ReleaseSchedule::Disabled,
            !r.is_simulpub,
    {
        TitleLabels { release_schedule: ReleaseSchedule::Disabled, is_simulpub: false }
    }
}

/// Default of `chapters_descending`.
pub fn default_true() -> (r: bool)
    ensures
        r,
{
    true
}

/// Default language of a title or popup.
pub fn default_language() -> (r: Option<Language>)
    ensures
        r == Some(Language::English),
{
    Some(Language::English)
}

/// Default label of a title: Weekly Shonen Jump.
pub fn default_wsj() -> (r: Option<Label>)
    ensures
        r == Some(Label { label: Some(LabelCode::WeeklyShonenJump) }),
{
    Some(Label { label: Some(LabelCode::WeeklyShonenJump) })
}

/// Default label code: Weekly Shonen Jump.
pub fn default_wsj_code() -> (r: Option<LabelCode>)
    ensures
        r == Some(LabelCode::WeeklyShonenJump),
{
    Some(LabelCode::WeeklyShonenJump)
}

/// A chapter entry of a title.
pub struct MangaPlusChapter {
    pub title_id: i32,
    pub chapter_id: i32,
    pub name: String,
    pub sub_title: Option<String>,
    pub start_time_stamp: i64,
    pub end_time_stamp: i64,
    pub is_vertical_only: bool,
}

impl MangaPlusChapter {
    /// A chapter without a subtitle is no longer readable.
    pub fn is_expired(&self) -> (r: bool)
        ensures
            r == self.sub_title is None,
    {
        self.sub_title.is_none()
    }
}

/// The first and last chapters a group of a title's chapter list shows.
pub struct ChapterListGroup {
    pub first_chapter_list: Vec<MangaPlusChapter>,
    pub last_chapter_list: Vec<MangaPlusChapter>,
}

/// A title as listed.
pub struct Title {
    pub title_id: i32,
    pub name: String,
    pub author: Option<String>,
    pub portrait_image_url: String,
    pub view_count: i32,
    pub language: Option<Language>,
}

/// The detail view of a title.
pub struct TitleDetailView {
    pub title: Title,
    pub title_image_url: String,
    pub overview: Option<String>,
    pub next_time_stamp: i64,
    pub viewing_period_description: String,
    pub non_appearance_info: String,
    pub chapter_list_group: Vec<ChapterListGroup>,
    pub chapter_list_v2: Vec<MangaPlusChapter>,
    pub is_simul_released: bool,
    pub rating: Rating,
    pub chapters_descending: bool,
    pub title_labels: TitleLabels,
    pub label: Option<Label>,
}

/// The chapters of the first `n` groups: each group's first chapters, then
/// its last chapters.
pub open spec fn grouped_chapters(groups: Seq<ChapterListGroup>, n: nat) -> Seq<MangaPlusChapter>
    decreases n,
{
    if n == 0 {
        Seq::empty()
    } else {
        grouped_chapters(groups, (n - 1) as nat) + groups[n - 1].first_chapter_list@
            + groups[n - 1].last_chapter_list@
    }
}

/// The chapters a list of references points to.
pub open spec fn deref_all(v: Seq<&MangaPlusChapter>) -> Seq<MangaPlusChapter> {
    v.map_values(|c: &MangaPlusChapter| *c)
}

impl TitleDetailView {
    /// The chapters the app shows: the flat list in the mobile API, the
    /// grouped one otherwise.
    pub open spec fn chapters_spec(&self, mobile: bool) -> Seq<MangaPlusChapter> {
        if mobile {
            self.chapter_list_v2@
        } else {
            grouped_chapters(self.chapter_list_group@, self.chapter_list_group@.len())
        }
    }

    /// The title is a one-shot: a single chapter named "one-shot".
    pub open spec fn oneshot_spec(&self, mobile: bool) -> bool {
        let l = self.chapters_spec(mobile);
        l.len() == 1 && lowercase(l[0].name@) == "one-shot"@
    }

    /// The title is a re-edition.
    pub open spec fn reedition_spec(&self) -> bool {
        contains_seq(self.viewing_period_description@, "revival"@) || contains_seq(
            self.viewing_period_description@,
            "remasterizada"@,
        )
    }

    /// The title is complete.
    pub open spec fn completed_spec(&self, mobile: bool) -> bool {
        contains_seq(self.non_appearance_info@, "complet"@) || self.oneshot_spec(mobile)
            || self.title_labels.release_schedule == ReleaseSchedule::Completed
            || self.title_labels.release_schedule == ReleaseSchedule::Disabled
    }

    /// The title is on hiatus.
    pub open spec fn hiatus_spec(&self) -> bool {
        contains_seq(lowercase(self.non_appearance_info@), "on a hiatus"@)
    }

    /// The genres the source lists for a title.
    pub open spec fn genres_spec(&self, mobile: bool) -> Seq<Seq<char>> {
        let oneshot = self.oneshot_spec(mobile);
        let reedition = self.reedition_spec();
        let completed = self.completed_spec(mobile);
        let simulpub = self.is_simul_released || self.title_labels.is_simulpub;
        let g0 = if simulpub && !reedition && !completed {
            seq!["Simulrelease"@]
        } else {
            Seq::empty()
        };
        let g1 = if oneshot {
            g0.push("One-Shot"@)
        } else {
            g0
        };
        let g2 = if reedition {
            g1.push("Re-edition"@)
        } else {
            g1
        };
        let g3 = match self.label {
            Some(l) => match magazine_name(l.label) {
                Some(m) => g2.push(m),
                None => g2,
            },
            None => g2,
        };
        let g4 = if !completed {
            g3.push(self.title_labels.release_schedule.name())
        } else {
            g3
        };
        g4.push(self.rating.name())
    }

    /// The chapters shown, by reference.
    pub fn chapter_list(&self, mobile: bool) -> (r: Vec<&MangaPlusChapter>)
        ensures
            deref_all(r@) == self.chapters_spec(mobile),
    {
        let mut r: Vec<&MangaPlusChapter> = Vec::new();
        if mobile {
            let mut i: usize = 0;
            while i < self.chapter_list_v2.len()
                invariant
                    i <= self.chapter_list_v2@.len(),
                    deref_all(r@) == self.chapter_list_v2@.take(i as int),
                decreases self.chapter_list_v2@.len() - i,
            {
                let ghost old_r = r@;
                r.push(&self.chapter_list_v2[i]);
                assert(deref_all(r@) =~= deref_all(old_r).push(self.chapter_list_v2@[i as int]));
                i = i + 1;
                assert(self.chapter_list_v2@.take(i as int) =~= self.chapter_list_v2@.take(i - 1).push(
                    self.chapter_list_v2@[i - 1],
                ));
            }
            assert(self.chapter_list_v2@.take(i as int) == self.chapter_list_v2@);
            return r;
        }
        let groups = &self.chapter_list_group;
        let mut g: usize = 0;
        while g < groups.len()
            invariant
                g <= groups@.len(),
                deref_all(r@) == grouped_chapters(groups@, g as nat),
            decreases groups@.len() - g,
        {
            let group = &groups[g];
            let ghost before = deref_all(r@);
            let mut i: usize = 0;
            while i < group.first_chapter_list.len()
                invariant
                    i <= group.first_chapter_list@.len(),
                    deref_all(r@) == before + group.first_chapter_list@.take(i as int),
                decreases group.first_chapter_list@.len() - i,
            {
                let ghost old_r = r@;
                r.push(&group.first_chapter_list[i]);
                assert(deref_all(r@) =~= deref_all(old_r).push(group.first_chapter_list@[i as int]));
                i = i + 1;
                assert(group.first_chapter_list@.take(i as int) =~= group.first_chapter_list@.take(
                    i - 1,
                ).push(group.first_chapter_list@[i - 1]));
            }
            assert(group.first_chapter_list@.take(i as int) == group.first_chapter_list@);
            let ghost mid = deref_all(r@);
            let mut j: usize = 0;
            while j < group.last_chapter_list.len()
                invariant
                    j <= group.last_chapter_list@.len(),
                    deref_all(r@) == mid + group.last_chapter_list@.take(j as int),
                decreases group.last_chapter_list@.len() - j,
            {
                let ghost old_r = r@;
                r.push(&group.last_chapter_list[j]);
                assert(deref_all(r@) =~= deref_all(old_r).push(group.last_chapter_list@[j as int]));
                j = j + 1;
                assert(group.last_chapter_list@.take(j as int) =~= group.last_chapter_list@.take(
                    j - 1,
                ).push(group.last_chapter_list@[j - 1]));
            }
            assert(group.last_chapter_list@.take(j as int) == group.last_chapter_list@);
            g = g + 1;
        }
        r
    }

    /// The title is a webtoon; MANGA Plus does not mark any.
    pub fn is_webtoon(&self) -> (r: bool)
        ensures
            !r,
    {
        false
    }

    /// The title is a one-shot.
    pub fn is_oneshot(&self, mobile: bool) -> (r: bool)
        ensures
            r == self.oneshot_spec(mobile),
    {
        let list = self.chapter_list(mobile);
        if list.len() != 1 {
            return false;
        }
        let lower = to_lowercase(list[0].name.as_str());
        chars_eq(&chars_of(lower.as_str()), &chars_of("one-shot"))
    }

    /// The title is a re-edition.
    pub fn is_reedition(&self) -> (r: bool)
        ensures
            r == self.reedition_spec(),
    {
        let d = chars_of(self.viewing_period_description.as_str());
        find_chars(&d, &chars_of("revival")).is_some() || find_chars(&d, &chars_of("remasterizada")).is_some()
    }

    /// The title is complete.
    pub fn is_completed(&self, mobile: bool) -> (r: bool)
        ensures
            r == self.completed_spec(mobile),
    {
        find_chars(&chars_of(self.non_appearance_info.as_str()), &chars_of("complet")).is_some()
            || self.is_oneshot(mobile) || self.title_labels.release_schedule == ReleaseSchedule::Completed
            || self.title_labels.release_schedule == ReleaseSchedule::Disabled
    }

    /// The title is published simultaneously with Japan.
    pub fn is_simulpub(&self) -> (r: bool)
        ensures
            r == (self.is_simul_released || self.title_labels.is_simulpub),
    {
        self.is_simul_released || self.title_labels.is_simulpub
    }

    /// The title is on hiatus.
    pub fn is_on_hiatus(&self) -> (r: bool)
        ensures
            r == self.hiatus_spec(),
    {
        let lower = to_lowercase(self.non_appearance_info.as_str());
        find_chars(&chars_of(lower.as_str()), &chars_of("on a hiatus")).is_some()
    }

    /// The genres of the title.
    pub fn genres(&self, mobile: bool) -> (r: Vec<String>)
        ensures
            r@.map_values(|s: String| s@) == self.genres_spec(mobile),
    {
        let mut genres: Vec<String> = Vec::new();
        let is_oneshot = self.is_oneshot(mobile);
        let is_reedition = self.is_reedition();
        let is_completed = self.is_completed(mobile);
        if self.is_simulpub() && !is_reedition && !is_completed {
            genres.push(string_of(&chars_of("Simulrelease")));
        }
        if is_oneshot {
            genres.push(string_of(&chars_of("One-Shot")));
        }
        if is_reedition {
            genres.push(string_of(&chars_of("Re-edition")));
        }
        if self.is_webtoon() {
            genres.push(string_of(&chars_of("Webtoon")));
        }
        match &self.label {
            Some(l) => match l.magazine() {
                Some(m) => genres.push(string_of(&chars_of(m))),
                None => {},
            },
            None => {},
        }
        if !is_completed {
            genres.push(string_of(&chars_of(self.title_labels.release_schedule.to_str())));
        }
        genres.push(string_of(&chars_of(self.rating.to_str())));
        assert(genres@.map_values(|s: String| s@) =~= self.genres_spec(mobile));
        genres
    }

    /// The viewing period, shown while the title still runs.
    pub fn viewing_information(&self, mobile: bool) -> (r: Option<&String>)
        ensures
            match r {
                Some(s) => !self.completed_spec(mobile) && s@ == self.viewing_period_description@,
                None => self.completed_spec(mobile),
            },
    {
        if !self.is_completed(mobile) {
            Some(&self.viewing_period_description)
        } else {
            None
        }
    }
}

/// The authors of a title: its author field split at `/` and `,`, each part
/// trimmed.
pub open spec fn title_authors_spec(author: Option<Seq<char>>) -> Option<Seq<Seq<char>>> {
    match author {
        None => None,
        Some(a) => Some(split_two(a, '/', ',').map_values(|p: Seq<char>| trim(p))),
    }
}

/// The author list the source makes of a title's author field.
pub fn title_authors(author: &Option<String>) -> (r: Option<Vec<String>>)
    ensures
        match r {
            None => author is None,
            Some(v) => author is Some && title_authors_spec(Some(author->0@)) == Some(
                v@.map_values(|s: String| s@),
            ),
        },
{
    match author {
        None => None,
        Some(a) => {
            let parts = split_two_chars(&chars_of(a.as_str()), '/', ',');
            let mut out: Vec<String> = Vec::new();
            let mut i: usize = 0;
            while i < parts.len()
                invariant
                    i <= parts@.len(),
                    out@.map_values(|s: String| s@) == parts@.take(i as int).map_values(
                        |p: Vec<char>| trim(p@),
                    ),
                decreases parts@.len() - i,
            {
                let t = trim_chars(&parts[i]);
                let ghost old_out = out@;
                let st = string_of(&t);
                out.push(st);
                assert(out@.map_values(|s: String| s@) =~= old_out.map_values(|s: String| s@).push(
                    trim(parts@[i as int]@),
                ));
                i = i + 1;
                assert(parts@.take(i as int) =~= parts@.take(i - 1).push(parts@[i - 1]));
                assert(out@.map_values(|s: String| s@) =~= parts@.take(i as int).map_values(
                    |p: Vec<char>| trim(p@),
                ));
            }
            assert(parts@.take(parts@.len() as int) == parts@);
            assert(parts@.map_values(|p: Vec<char>| trim(p@)) =~= split_two(a@, '/', ',').map_values(
                |p: Seq<char>| trim(p),
            ));
            Some(out)
        },
    }
}

/// A message popup of an error response.
pub struct Popup {
    pub body: String,
    pub language: Option<Language>,
}

/// The first popup in `language`, among `popups`.
pub open spec fn popup_index(popups: Seq<Popup>, language: Language) -> int {
    crate::text::find_first_index(popup_flags(popups, language))
}

/// Which popups are in `language`.
pub open spec fn popup_flags(popups: Seq<Popup>, language: Language) -> Seq<bool> {
    popups.map_values(|p: Popup| p.language == Some(language))
}

/// The popups of an error response.
pub struct ErrorResult {
    pub popups: Vec<Popup>,
}

impl ErrorResult {
    /// The first popup in `language`, if any.
    pub fn get(self, language: Language) -> (r: Option<Popup>)
        ensures
            popup_index(self.popups@, language) >= 0 ==> r == Some(
                self.popups@[popup_index(self.popups@, language)],
            ),
            popup_index(self.popups@, language) < 0 ==> r is None,
    {
        let ghost all = self.popups@;
        let ErrorResult { popups } = self;
        let mut popups = popups;
        assert(popups@ == all);
        let mut i: usize = 0;
        while i < popups.len()
            invariant
                popups@ == all,
                all == self.popups@,
                i <= all.len(),
                forall|k: int| 0 <= k < i ==> all[k].language != Some(language),
            decreases all.len() - i,
        {
            if popups[i].language == Some(language) {
                let ghost bs = popup_flags(all, language);
                assert(forall|k: int| 0 <= k < i ==> !bs[k]);
                assert(bs[i as int]);
                proof {
                    crate::text::lemma_find_first_index(popup_flags(all, language), i as int);
                }
                let p = popups.swap_remove(i);
                assert(p == all[i as int]);
                assert(popup_index(all, language) == i);
                return Some(p);
            }
            i = i + 1;
        }
        let ghost bs = popup_flags(all, language);
        assert(forall|k: int| 0 <= k < bs.len() ==> !bs[k]);
        proof {
            crate::text::lemma_find_first_none(popup_flags(all, language));
        }
        None
    }
}

} // verus!
