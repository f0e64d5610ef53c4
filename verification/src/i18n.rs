//! The interface languages and their texts.
use vstd::prelude::*;

use crate::text::{str_chars, chars_eq};

verus! {

/// An interface language.
#[derive(Clone, Copy, Debug, PartialEq, Eq, Structural)]
pub enum Lang {
    En,
    Tr,
}

/// The language for a code: `"tr"` is Turkish, anything else falls back to English.
pub open spec fn lang_of(code: Seq<char>) -> Lang {
    if code == "tr"@ { Lang::Tr } else { Lang::En }
}

/// The two-letter code of a language.
pub open spec fn code_of(lang: Lang) -> Seq<char> {
    match lang {
        Lang::En => "en"@,
        Lang::Tr => "tr"@,
    }
}

/// The codes of the supported languages, in picker order.
pub open spec fn supported_at(i: int) -> Lang {
    if i == 0 { Lang::En } else { Lang::Tr }
}

/// The language to switch to for `code`. Unknown codes fall back to English.
pub fn select(code: &str) -> (r: Lang)
    ensures
        r == lang_of(code@),
{
    let tr = str_chars("tr");
    let c = str_chars(code);
    proof {
        reveal_strlit("tr");
    }
    if chars_eq(c.as_slice(), tr.as_slice()) {
        Lang::Tr
    } else {
        Lang::En
    }
}

/// The code of the active language.
pub fn current(lang: Lang) -> (r: String)
    ensures
        r@ == code_of(lang),
{
    match lang {
        Lang::En => "en".to_string(),
        Lang::Tr => "tr".to_string(),
    }
}

/// Whether `code` names a supported language.
pub open spec fn supported(code: Seq<char>) -> bool {
    code == "en"@ || code == "tr"@
}

/// The first supported code among `codes`, if any.
pub open spec fn first_supported(codes: Seq<Seq<char>>) -> Option<Seq<char>>
    decreases codes.len(),
{
    if codes.len() == 0 {
        None
    } else if supported(codes[0]) {
        Some(codes[0])
    } else {
        first_supported(codes.drop_first())
    }
}

/// The language to start in: the flag's, else the first supported language the desktop
/// asks for (`desktop` holds their codes in order of preference), else English.
pub fn init(flag: Option<&str>, desktop: &Vec<String>) -> (r: Lang)
    ensures
        flag matches Some(f) ==> r == lang_of(f@),
        flag is None ==> r == match first_supported(desktop@.map_values(|s: String| s@)) {
            Some(c) => lang_of(c),
            None => Lang::En,
        },
{
    match flag {
        Some(f) => return select(f),
        None => {},
    }
    let ghost codes = desktop@.map_values(|s: String| s@);
    let mut i: usize = 0;
    proof {
        reveal_strlit("en");
        reveal_strlit("tr");
        assert(codes.subrange(0, codes.len() as int) =~= codes);
    }
    while i < desktop.len()
        invariant
            i <= desktop.len(),
            flag is None,
            codes == desktop@.map_values(|s: String| s@),
            first_supported(codes) == first_supported(codes.subrange(i as int, codes.len() as int)),
        decreases desktop.len() - i,
    {
        let c = str_chars(desktop[i].as_str());
        let en = str_chars("en");
        let tr = str_chars("tr");
        let ghost rest = codes.subrange(i as int, codes.len() as int);
        proof {
            assert(rest[0] == desktop@[i as int]@);
            assert(rest.drop_first() =~= codes.subrange(i + 1, codes.len() as int));
        }
        if chars_eq(c.as_slice(), en.as_slice()) || chars_eq(c.as_slice(), tr.as_slice()) {
            return select(desktop[i].as_str());
        }
        i = i + 1;
    }
    proof {
        assert(codes.subrange(i as int, codes.len() as int) =~= Seq::<Seq<char>>::empty());
    }
    Lang::En
}

/// The language once the store is open: `--lang` beats the stored setting, which beats
/// the desktop's first supported language; English is the fallback.
pub fn effective_lang(flag: Option<&str>, stored: Option<&str>, desktop: &Vec<String>) -> (r: Lang)
    ensures
        flag matches Some(f) ==> r == lang_of(f@),
        flag is None ==> (stored matches Some(s) ==> r == lang_of(s@)),
        flag is None && stored is None ==> r == match first_supported(desktop@.map_values(|s: String| s@)) {
            Some(c) => lang_of(c),
            None => Lang::En,
        },
{
    match (flag, stored) {
        (None, Some(s)) => select(s),
        _ => init(flag, desktop),
    }
}

/// Switching to a language and reading its code back gives the code for supported
/// codes, and "en" for every other code.
pub proof fn lemma_select_current(code: Seq<char>)
    ensures
        code == "tr"@ ==> code_of(lang_of(code)) == code,
        code == "en"@ ==> code_of(lang_of(code)) == code,
        code != "tr"@ ==> code_of(lang_of(code)) == "en"@,
{
    reveal_strlit("tr");
    reveal_strlit("en");
}

/// A fixed piece of user-facing text.
#[derive(Clone, Copy, Debug, PartialEq, Eq, Structural)]
pub enum Msg {
    AgeYearsUnit,
    AgeMonthsUnit,
    AgeDaysUnit,
    ViewYearsValue,
    MonthsWord,
    WeeksWord,
    DaySingular,
    DayPlural,
    HoursWord,
    SortAge,
    SortAlias,
    SortBirthday,
    ViewCalendar,
    ViewYears,
    ViewMonths,
    ViewWeeks,
    ViewDays,
    ViewHours,
    BirthdayToday,
    BirthdayInPrefix,
    BirthdayInSuffix,
    ColAlias,
    ColName,
    ColAge,
    ColZodiac,
    ColBirthday,
    ZodiacAries,
    ZodiacTaurus,
    ZodiacGemini,
    ZodiacCancer,
    ZodiacLeo,
    ZodiacVirgo,
    ZodiacLibra,
    ZodiacScorpio,
    ZodiacSagittarius,
    ZodiacCapricorn,
    ZodiacAquarius,
    ZodiacPisces,
    BadDateSuffix,
    BadTimeSuffix,
    BadTzSuffix,
    BadAliasSuffix,
    DuplicateSuffix,
    UnknownSuffix,
    StoreParsePrefix,
    StoreWritePrefix,
    ReasonSeparator,
    BadImagePrefix,
    BadImageSuffix,
    EmptyName,
    BadPixelSuffix,
    ConfirmNeedsTty,
    EmptyStore,
    AddedPrefix,
    UpdatedPrefix,
    RemovedPrefix,
    ConfirmRemovePrefix,
    ConfirmRemoveSuffix,
    AppAbout,
    CmdList,
    CmdAdd,
    CmdEdit,
    CmdRemove,
    CmdTui,
    LangEn,
    LangTr,
    TuiTitle,
    TuiSortPrefix,
    TuiViewPrefix,
    TuiHelp,
    TuiHelpForm,
    TuiHelpConfirm,
    TuiHelpError,
    TuiHelpPick,
    TuiDeleteTitle,
    TuiDeleteBodyPrefix,
    TuiRemoveAvatarTitle,
    TuiRemoveAvatarBodyPrefix,
    QuestionMark,
    TuiErrorTitle,
    TuiPickLang,
    TuiPickSort,
    TuiPickView,
    TuiFormEdit,
    TuiFormAdd,
    FieldAlias,
    FieldFirstName,
    FieldLastName,
    FieldDate,
    FieldTime,
    FieldTz,
    FieldAvatar,
    FieldPixel,
    FieldAvatarKept,
    TimeUnknown,
    TzLocal,
    PixelTag,
    Quote,
    Period,
}

/// The text of `m` in language `lang`.
pub open spec fn msg_spec(lang: Lang, m: Msg) -> Seq<char> {
    match lang {
        Lang::En => match m {
            Msg::AgeYearsUnit => "y"@,
            Msg::AgeMonthsUnit => "m"@,
            Msg::AgeDaysUnit => "d"@,
            Msg::ViewYearsValue => " years"@,
            Msg::MonthsWord => " months "@,
            Msg::WeeksWord => " weeks "@,
            Msg::DaySingular => " day"@,
            Msg::DayPlural => " days"@,
            Msg::HoursWord => " hours"@,
            Msg::SortAge => "age"@,
            Msg::SortAlias => "alias"@,
            Msg::SortBirthday => "birthday"@,
            Msg::ViewCalendar => "calendar"@,
            Msg::ViewYears => "years"@,
            Msg::ViewMonths => "months"@,
            Msg::ViewWeeks => "weeks"@,
            Msg::ViewDays => "days"@,
            Msg::ViewHours => "hours"@,
            Msg::BirthdayToday => "birthday today"@,
            Msg::BirthdayInPrefix => "birthday in "@,
            Msg::BirthdayInSuffix => ""@,
            Msg::ColAlias => "alias"@,
            Msg::ColName => "name"@,
            Msg::ColAge => "age"@,
            Msg::ColZodiac => "zodiac"@,
            Msg::ColBirthday => "birthday"@,
            Msg::ZodiacAries => "Aries"@,
            Msg::ZodiacTaurus => "Taurus"@,
            Msg::ZodiacGemini => "Gemini"@,
            Msg::ZodiacCancer => "Cancer"@,
            Msg::ZodiacLeo => "Leo"@,
            Msg::ZodiacVirgo => "Virgo"@,
            Msg::ZodiacLibra => "Libra"@,
            Msg::ZodiacScorpio => "Scorpio"@,
            Msg::ZodiacSagittarius => "Sagittarius"@,
            Msg::ZodiacCapricorn => "Capricorn"@,
            Msg::ZodiacAquarius => "Aquarius"@,
            Msg::ZodiacPisces => "Pisces"@,
            Msg::BadDateSuffix => "\" is not a date. Use YYYY-MM-DD or DD.MM.YYYY."@,
            Msg::BadTimeSuffix => "\" is not a time. Use HH:MM."@,
            Msg::BadTzSuffix => "\" is not a time zone. Use an IANA name such as Europe/Istanbul."@,
            Msg::BadAliasSuffix => "\" is an invalid alias: use letters, digits, spaces, - and _."@,
            Msg::DuplicateSuffix => "\" already exists."@,
            Msg::UnknownSuffix => "\" is not in the list."@,
            Msg::StoreParsePrefix => "Cannot read "@,
            Msg::StoreWritePrefix => "Cannot write "@,
            Msg::ReasonSeparator => ": "@,
            Msg::BadImagePrefix => "Cannot open "@,
            Msg::BadImageSuffix => " as an image."@,
            Msg::EmptyName => "First name is required."@,
            Msg::BadPixelSuffix => "\" is not a pixel setting. Use yes, no or a grid size from 2 to 256."@,
            Msg::ConfirmNeedsTty => "Refusing to remove without a terminal; pass --yes."@,
            Msg::EmptyStore => "No people yet. Add someone with `ages add`."@,
            Msg::AddedPrefix => "Added "@,
            Msg::UpdatedPrefix => "Updated "@,
            Msg::RemovedPrefix => "Removed "@,
            Msg::ConfirmRemovePrefix => "Remove "@,
            Msg::ConfirmRemoveSuffix => "? [y/N]"@,
            Msg::AppAbout => "Show how old the people you care about are."@,
            Msg::CmdList => "List people and their ages"@,
            Msg::CmdAdd => "Add a person"@,
            Msg::CmdEdit => "Edit a person"@,
            Msg::CmdRemove => "Remove a person"@,
            Msg::CmdTui => "Open the interactive view"@,
            Msg::LangEn => "English"@,
            Msg::LangTr => "Türkçe"@,
            Msg::TuiTitle => "ages"@,
            Msg::TuiSortPrefix => "sort: "@,
            Msg::TuiViewPrefix => "view: "@,
            Msg::TuiHelp => "↑↓ move  a add  e edit  d delete  x avatar off  s sort  v view  l language  q quit"@,
            Msg::TuiHelpForm => "Tab next field  Shift-Tab previous  Enter save  Esc cancel"@,
            Msg::TuiHelpConfirm => "y yes  n no"@,
            Msg::TuiHelpError => "press any key"@,
            Msg::TuiHelpPick => "↑↓ choose  Enter select  Esc cancel"@,
            Msg::TuiDeleteTitle => "Delete"@,
            Msg::TuiDeleteBodyPrefix => "Delete "@,
            Msg::TuiRemoveAvatarTitle => "Remove avatar"@,
            Msg::TuiRemoveAvatarBodyPrefix => "Remove the avatar of "@,
            Msg::QuestionMark => "?"@,
            Msg::TuiErrorTitle => "Error"@,
            Msg::TuiPickLang => "Language"@,
            Msg::TuiPickSort => "Sort by"@,
            Msg::TuiPickView => "Age view"@,
            Msg::TuiFormEdit => "Edit person"@,
            Msg::TuiFormAdd => "Add person"@,
            Msg::FieldAlias => "alias"@,
            Msg::FieldFirstName => "first name"@,
            Msg::FieldLastName => "last name"@,
            Msg::FieldDate => "birth date (YYYY-MM-DD or DD.MM.YYYY)"@,
            Msg::FieldTime => "birth time (HH:MM, optional)"@,
            Msg::FieldTz => "time zone (IANA, optional)"@,
            Msg::FieldAvatar => "avatar image path (optional)"@,
            Msg::FieldPixel => "pixel art (yes / no / grid size)"@,
            Msg::FieldAvatarKept => "current avatar is kept"@,
            Msg::TimeUnknown => "time unknown"@,
            Msg::TzLocal => "local time"@,
            Msg::PixelTag => "pixel art"@,
            Msg::Quote => "\""@,
            Msg::Period => "."@,
        },
        Lang::Tr => match m {
            Msg::AgeYearsUnit => "y"@,
            Msg::AgeMonthsUnit => "a"@,
            Msg::AgeDaysUnit => "g"@,
            Msg::ViewYearsValue => " yıl"@,
            Msg::MonthsWord => " ay "@,
            Msg::WeeksWord => " hafta "@,
            Msg::DaySingular => " gün"@,
            Msg::DayPlural => " gün"@,
            Msg::HoursWord => " saat"@,
            Msg::SortAge => "yaş"@,
            Msg::SortAlias => "takma ad"@,
            Msg::SortBirthday => "doğum günü"@,
            Msg::ViewCalendar => "takvim"@,
            Msg::ViewYears => "yıl"@,
            Msg::ViewMonths => "ay"@,
            Msg::ViewWeeks => "hafta"@,
            Msg::ViewDays => "gün"@,
            Msg::ViewHours => "saat"@,
            Msg::BirthdayToday => "doğum günü bugün"@,
            Msg::BirthdayInPrefix => "doğum gününe "@,
            Msg::BirthdayInSuffix => " kaldı"@,
            Msg::ColAlias => "takma ad"@,
            Msg::ColName => "ad"@,
            Msg::ColAge => "yaş"@,
            Msg::ColZodiac => "burç"@,
            Msg::ColBirthday => "doğum günü"@,
            Msg::ZodiacAries => "Koç"@,
            Msg::ZodiacTaurus => "Boğa"@,
            Msg::ZodiacGemini => "İkizler"@,
            Msg::ZodiacCancer => "Yengeç"@,
            Msg::ZodiacLeo => "Aslan"@,
            Msg::ZodiacVirgo => "Başak"@,
            Msg::ZodiacLibra => "Terazi"@,
            Msg::ZodiacScorpio => "Akrep"@,
            Msg::ZodiacSagittarius => "Yay"@,
            Msg::ZodiacCapricorn => "Oğlak"@,
            Msg::ZodiacAquarius => "Kova"@,
            Msg::ZodiacPisces => "Balık"@,
            Msg::BadDateSuffix => "\" bir tarih değil. YYYY-AA-GG ya da GG.AA.YYYY kullanın."@,
            Msg::BadTimeSuffix => "\" bir saat değil. SS:DD kullanın."@,
            Msg::BadTzSuffix => "\" bir saat dilimi değil. Europe/Istanbul gibi bir IANA adı kullanın."@,
            Msg::BadAliasSuffix => "\" geçersiz bir takma ad: harf, rakam, boşluk, - ve _ kullanın."@,
            Msg::DuplicateSuffix => "\" zaten var."@,
            Msg::UnknownSuffix => "\" listede yok."@,
            Msg::StoreParsePrefix => "Okunamadı: "@,
            Msg::StoreWritePrefix => "Yazılamadı: "@,
            Msg::ReasonSeparator => ": "@,
            Msg::BadImagePrefix => "Açılamadı: "@,
            Msg::BadImageSuffix => " (resim olarak)."@,
            Msg::EmptyName => "Ad gerekli."@,
            Msg::BadPixelSuffix => "\" geçerli bir piksel ayarı değil. evet, hayır ya da 2 ile 256 arasında bir ızgara boyutu girin."@,
            Msg::ConfirmNeedsTty => "Terminal olmadan silinmiyor; --yes kullanın."@,
            Msg::EmptyStore => "Henüz kimse yok. `ages add` ile birini ekleyin."@,
            Msg::AddedPrefix => "Eklendi: "@,
            Msg::UpdatedPrefix => "Güncellendi: "@,
            Msg::RemovedPrefix => "Silindi: "@,
            Msg::ConfirmRemovePrefix => "Silinsin mi: "@,
            Msg::ConfirmRemoveSuffix => "? [e/H]"@,
            Msg::AppAbout => "Sevdiklerinizin kaç yaşında olduğunu gösterir."@,
            Msg::CmdList => "Kişileri ve yaşlarını listele"@,
            Msg::CmdAdd => "Kişi ekle"@,
            Msg::CmdEdit => "Kişiyi düzenle"@,
            Msg::CmdRemove => "Kişiyi sil"@,
            Msg::CmdTui => "Etkileşimli görünümü aç"@,
            Msg::LangEn => "English"@,
            Msg::LangTr => "Türkçe"@,
            Msg::TuiTitle => "ages"@,
            Msg::TuiSortPrefix => "sıralama: "@,
            Msg::TuiViewPrefix => "görünüm: "@,
            Msg::TuiHelp => "↑↓ gez  a ekle  e düzenle  d sil  x avatarı kaldır  s sırala  v görünüm  l dil  q çık"@,
            Msg::TuiHelpForm => "Tab sonraki alan  Shift-Tab önceki  Enter kaydet  Esc vazgeç"@,
            Msg::TuiHelpConfirm => "e evet  h hayır"@,
            Msg::TuiHelpError => "bir tuşa basın"@,
            Msg::TuiHelpPick => "↑↓ seç  Enter onayla  Esc vazgeç"@,
            Msg::TuiDeleteTitle => "Sil"@,
            Msg::TuiDeleteBodyPrefix => "Silinsin mi: "@,
            Msg::TuiRemoveAvatarTitle => "Avatarı kaldır"@,
            Msg::TuiRemoveAvatarBodyPrefix => "Avatarı kaldırılsın mı: "@,
            Msg::QuestionMark => "?"@,
            Msg::TuiErrorTitle => "Hata"@,
            Msg::TuiPickLang => "Dil"@,
            Msg::TuiPickSort => "Sıralama"@,
            Msg::TuiPickView => "Yaş görünümü"@,
            Msg::TuiFormEdit => "Kişiyi düzenle"@,
            Msg::TuiFormAdd => "Kişi ekle"@,
            Msg::FieldAlias => "takma ad"@,
            Msg::FieldFirstName => "ad"@,
            Msg::FieldLastName => "soyad"@,
            Msg::FieldDate => "doğum tarihi (YYYY-AA-GG ya da GG.AA.YYYY)"@,
            Msg::FieldTime => "doğum saati (SS:DD, isteğe bağlı)"@,
            Msg::FieldTz => "saat dilimi (IANA, isteğe bağlı)"@,
            Msg::FieldAvatar => "avatar resim yolu (isteğe bağlı)"@,
            Msg::FieldPixel => "piksel sanatı (evet / hayır / ızgara boyutu)"@,
            Msg::FieldAvatarKept => "mevcut avatar korunur"@,
            Msg::TimeUnknown => "saat bilinmiyor"@,
            Msg::TzLocal => "yerel saat"@,
            Msg::PixelTag => "piksel sanatı"@,
            Msg::Quote => "\""@,
            Msg::Period => "."@,
        },
    }
}

/// The text of `m` in language `lang`.
pub fn msg(lang: Lang, m: Msg) -> (r: &'static str)
    ensures
        r@ == msg_spec(lang, m),
{
    match lang {
        Lang::En => match m {
            Msg::AgeYearsUnit => "y",
            Msg::AgeMonthsUnit => "m",
            Msg::AgeDaysUnit => "d",
            Msg::ViewYearsValue => " years",
            Msg::MonthsWord => " months ",
            Msg::WeeksWord => " weeks ",
            Msg::DaySingular => " day",
            Msg::DayPlural => " days",
            Msg::HoursWord => " hours",
            Msg::SortAge => "age",
            Msg::SortAlias => "alias",
            Msg::SortBirthday => "birthday",
            Msg::ViewCalendar => "calendar",
            Msg::ViewYears => "years",
            Msg::ViewMonths => "months",
            Msg::ViewWeeks => "weeks",
            Msg::ViewDays => "days",
            Msg::ViewHours => "hours",
            Msg::BirthdayToday => "birthday today",
            Msg::BirthdayInPrefix => "birthday in ",
            Msg::BirthdayInSuffix => "",
            Msg::ColAlias => "alias",
            Msg::ColName => "name",
            Msg::ColAge => "age",
            Msg::ColZodiac => "zodiac",
            Msg::ColBirthday => "birthday",
            Msg::ZodiacAries => "Aries",
            Msg::ZodiacTaurus => "Taurus",
            Msg::ZodiacGemini => "Gemini",
            Msg::ZodiacCancer => "Cancer",
            Msg::ZodiacLeo => "Leo",
            Msg::ZodiacVirgo => "Virgo",
            Msg::ZodiacLibra => "Libra",
            Msg::ZodiacScorpio => "Scorpio",
            Msg::ZodiacSagittarius => "Sagittarius",
            Msg::ZodiacCapricorn => "Capricorn",
            Msg::ZodiacAquarius => "Aquarius",
            Msg::ZodiacPisces => "Pisces",
            Msg::BadDateSuffix => "\" is not a date. Use YYYY-MM-DD or DD.MM.YYYY.",
            Msg::BadTimeSuffix => "\" is not a time. Use HH:MM.",
            Msg::BadTzSuffix => "\" is not a time zone. Use an IANA name such as Europe/Istanbul.",
            Msg::BadAliasSuffix => "\" is an invalid alias: use letters, digits, spaces, - and _.",
            Msg::DuplicateSuffix => "\" already exists.",
            Msg::UnknownSuffix => "\" is not in the list.",
            Msg::StoreParsePrefix => "Cannot read ",
            Msg::StoreWritePrefix => "Cannot write ",
            Msg::ReasonSeparator => ": ",
            Msg::BadImagePrefix => "Cannot open ",
            Msg::BadImageSuffix => " as an image.",
            Msg::EmptyName => "First name is required.",
            Msg::BadPixelSuffix => "\" is not a pixel setting. Use yes, no or a grid size from 2 to 256.",
            Msg::ConfirmNeedsTty => "Refusing to remove without a terminal; pass --yes.",
            Msg::EmptyStore => "No people yet. Add someone with `ages add`.",
            Msg::AddedPrefix => "Added ",
            Msg::UpdatedPrefix => "Updated ",
            Msg::RemovedPrefix => "Removed ",
            Msg::ConfirmRemovePrefix => "Remove ",
            Msg::ConfirmRemoveSuffix => "? [y/N]",
            Msg::AppAbout => "Show how old the people you care about are.",
            Msg::CmdList => "List people and their ages",
            Msg::CmdAdd => "Add a person",
            Msg::CmdEdit => "Edit a person",
            Msg::CmdRemove => "Remove a person",
            Msg::CmdTui => "Open the interactive view",
            Msg::LangEn => "English",
            Msg::LangTr => "Türkçe",
            Msg::TuiTitle => "ages",
            Msg::TuiSortPrefix => "sort: ",
            Msg::TuiViewPrefix => "view: ",
            Msg::TuiHelp => "↑↓ move  a add  e edit  d delete  x avatar off  s sort  v view  l language  q quit",
            Msg::TuiHelpForm => "Tab next field  Shift-Tab previous  Enter save  Esc cancel",
            Msg::TuiHelpConfirm => "y yes  n no",
            Msg::TuiHelpError => "press any key",
            Msg::TuiHelpPick => "↑↓ choose  Enter select  Esc cancel",
            Msg::TuiDeleteTitle => "Delete",
            Msg::TuiDeleteBodyPrefix => "Delete ",
            Msg::TuiRemoveAvatarTitle => "Remove avatar",
            Msg::TuiRemoveAvatarBodyPrefix => "Remove the avatar of ",
            Msg::QuestionMark => "?",
            Msg::TuiErrorTitle => "Error",
            Msg::TuiPickLang => "Language",
            Msg::TuiPickSort => "Sort by",
            Msg::TuiPickView => "Age view",
            Msg::TuiFormEdit => "Edit person",
            Msg::TuiFormAdd => "Add person",
            Msg::FieldAlias => "alias",
            Msg::FieldFirstName => "first name",
            Msg::FieldLastName => "last name",
            Msg::FieldDate => "birth date (YYYY-MM-DD or DD.MM.YYYY)",
            Msg::FieldTime => "birth time (HH:MM, optional)",
            Msg::FieldTz => "time zone (IANA, optional)",
            Msg::FieldAvatar => "avatar image path (optional)",
            Msg::FieldPixel => "pixel art (yes / no / grid size)",
            Msg::FieldAvatarKept => "current avatar is kept",
            Msg::TimeUnknown => "time unknown",
            Msg::TzLocal => "local time",
            Msg::PixelTag => "pixel art",
            Msg::Quote => "\"",
            Msg::Period => ".",
        },
        Lang::Tr => match m {
            Msg::AgeYearsUnit => "y",
            Msg::AgeMonthsUnit => "a",
            Msg::AgeDaysUnit => "g",
            Msg::ViewYearsValue => " yıl",
            Msg::MonthsWord => " ay ",
            Msg::WeeksWord => " hafta ",
            Msg::DaySingular => " gün",
            Msg::DayPlural => " gün",
            Msg::HoursWord => " saat",
            Msg::SortAge => "yaş",
            Msg::SortAlias => "takma ad",
            Msg::SortBirthday => "doğum günü",
            Msg::ViewCalendar => "takvim",
            Msg::ViewYears => "yıl",
            Msg::ViewMonths => "ay",
            Msg::ViewWeeks => "hafta",
            Msg::ViewDays => "gün",
            Msg::ViewHours => "saat",
            Msg::BirthdayToday => "doğum günü bugün",
            Msg::BirthdayInPrefix => "doğum gününe ",
            Msg::BirthdayInSuffix => " kaldı",
            Msg::ColAlias => "takma ad",
            Msg::ColName => "ad",
            Msg::ColAge => "yaş",
            Msg::ColZodiac => "burç",
            Msg::ColBirthday => "doğum günü",
            Msg::ZodiacAries => "Koç",
            Msg::ZodiacTaurus => "Boğa",
            Msg::ZodiacGemini => "İkizler",
            Msg::ZodiacCancer => "Yengeç",
            Msg::ZodiacLeo => "Aslan",
            Msg::ZodiacVirgo => "Başak",
            Msg::ZodiacLibra => "Terazi",
            Msg::ZodiacScorpio => "Akrep",
            Msg::ZodiacSagittarius => "Yay",
            Msg::ZodiacCapricorn => "Oğlak",
            Msg::ZodiacAquarius => "Kova",
            Msg::ZodiacPisces => "Balık",
            Msg::BadDateSuffix => "\" bir tarih değil. YYYY-AA-GG ya da GG.AA.YYYY kullanın.",
            Msg::BadTimeSuffix => "\" bir saat değil. SS:DD kullanın.",
            Msg::BadTzSuffix => "\" bir saat dilimi değil. Europe/Istanbul gibi bir IANA adı kullanın.",
            Msg::BadAliasSuffix => "\" geçersiz bir takma ad: harf, rakam, boşluk, - ve _ kullanın.",
            Msg::DuplicateSuffix => "\" zaten var.",
            Msg::UnknownSuffix => "\" listede yok.",
            Msg::StoreParsePrefix => "Okunamadı: ",
            Msg::StoreWritePrefix => "Yazılamadı: ",
            Msg::ReasonSeparator => ": ",
            Msg::BadImagePrefix => "Açılamadı: ",
            Msg::BadImageSuffix => " (resim olarak).",
            Msg::EmptyName => "Ad gerekli.",
            Msg::BadPixelSuffix => "\" geçerli bir piksel ayarı değil. evet, hayır ya da 2 ile 256 arasında bir ızgara boyutu girin.",
            Msg::ConfirmNeedsTty => "Terminal olmadan silinmiyor; --yes kullanın.",
            Msg::EmptyStore => "Henüz kimse yok. `ages add` ile birini ekleyin.",
            Msg::AddedPrefix => "Eklendi: ",
            Msg::UpdatedPrefix => "Güncellendi: ",
            Msg::RemovedPrefix => "Silindi: ",
            Msg::ConfirmRemovePrefix => "Silinsin mi: ",
            Msg::ConfirmRemoveSuffix => "? [e/H]",
            Msg::AppAbout => "Sevdiklerinizin kaç yaşında olduğunu gösterir.",
            Msg::CmdList => "Kişileri ve yaşlarını listele",
            Msg::CmdAdd => "Kişi ekle",
            Msg::CmdEdit => "Kişiyi düzenle",
            Msg::CmdRemove => "Kişiyi sil",
            Msg::CmdTui => "Etkileşimli görünümü aç",
            Msg::LangEn => "English",
            Msg::LangTr => "Türkçe",
            Msg::TuiTitle => "ages",
            Msg::TuiSortPrefix => "sıralama: ",
            Msg::TuiViewPrefix => "görünüm: ",
            Msg::TuiHelp => "↑↓ gez  a ekle  e düzenle  d sil  x avatarı kaldır  s sırala  v görünüm  l dil  q çık",
            Msg::TuiHelpForm => "Tab sonraki alan  Shift-Tab önceki  Enter kaydet  Esc vazgeç",
            Msg::TuiHelpConfirm => "e evet  h hayır",
            Msg::TuiHelpError => "bir tuşa basın",
            Msg::TuiHelpPick => "↑↓ seç  Enter onayla  Esc vazgeç",
            Msg::TuiDeleteTitle => "Sil",
            Msg::TuiDeleteBodyPrefix => "Silinsin mi: ",
            Msg::TuiRemoveAvatarTitle => "Avatarı kaldır",
            Msg::TuiRemoveAvatarBodyPrefix => "Avatarı kaldırılsın mı: ",
            Msg::QuestionMark => "?",
            Msg::TuiErrorTitle => "Hata",
            Msg::TuiPickLang => "Dil",
            Msg::TuiPickSort => "Sıralama",
            Msg::TuiPickView => "Yaş görünümü",
            Msg::TuiFormEdit => "Kişiyi düzenle",
            Msg::TuiFormAdd => "Kişi ekle",
            Msg::FieldAlias => "takma ad",
            Msg::FieldFirstName => "ad",
            Msg::FieldLastName => "soyad",
            Msg::FieldDate => "doğum tarihi (YYYY-AA-GG ya da GG.AA.YYYY)",
            Msg::FieldTime => "doğum saati (SS:DD, isteğe bağlı)",
            Msg::FieldTz => "saat dilimi (IANA, isteğe bağlı)",
            Msg::FieldAvatar => "avatar resim yolu (isteğe bağlı)",
            Msg::FieldPixel => "piksel sanatı (evet / hayır / ızgara boyutu)",
            Msg::FieldAvatarKept => "mevcut avatar korunur",
            Msg::TimeUnknown => "saat bilinmiyor",
            Msg::TzLocal => "yerel saat",
            Msg::PixelTag => "piksel sanatı",
            Msg::Quote => "\"",
            Msg::Period => ".",
        },
    }
}


} // verus!
