//! The listening summary ("wrapped"): its records and the listener
//! personality drawn from the most played genre.

use vstd::prelude::*;

use crate::text::{contains, lowercase, str_contains, to_lowercase};

verus! {

broadcast use vstd::string::group_string_axioms;

pub struct TopTrackItem {
    pub track_id: String,
    pub title: String,
    pub artist: String,
    pub cover_url: Option<String>,
    pub plays: i64,
}

pub struct TopArtistItem {
    pub artist: String,
    pub plays: i64,
}

pub struct MusicPersonality {
    pub title: String,
    pub tag: String,
    pub description: String,
}

/// The genre taken when no genre was played.
pub const NO_GENRE: &'static str = "Разное";

/// More plays than this make a listener without a leading genre a
/// "singularity" rather than an "explorer".
pub const MANY_PLAYS: i64 = 30;

#[derive(PartialEq, Eq, Structural, Clone, Copy, Debug)]
pub enum Persona {
    CyberArchitect,
    CosmicDrifter,
    RhythmStrategist,
    OverdrivenDriver,
    AudioSingularity,
    FrequencyExplorer,
}

pub open spec fn mentions(g: Seq<char>, a: Seq<char>, b: Seq<char>, c: Seq<char>) -> bool {
    contains(g, a) || contains(g, b) || contains(g, c)
}

/// The persona for the most played genre (`None` when no genre was
/// played) and the total number of plays. The genre is matched in lower
/// case, the families tried in order.
pub open spec fn persona_of(primary_genre: Option<Seq<char>>, total_plays: i64) -> Persona {
    let g = lowercase(
        match primary_genre {
            Some(x) => x,
            None => NO_GENRE@,
        },
    );
    if mentions(g, "electron"@, "synth"@, "techno"@) {
        Persona::CyberArchitect
    } else if mentions(g, "ambient"@, "chill"@, "lounge"@) {
        Persona::CosmicDrifter
    } else if mentions(g, "hip"@, "rap"@, "trap"@) {
        Persona::RhythmStrategist
    } else if contains(g, "rock"@) || contains(g, "metal"@) {
        Persona::OverdrivenDriver
    } else if total_plays > MANY_PLAYS {
        Persona::AudioSingularity
    } else {
        Persona::FrequencyExplorer
    }
}

/// The persona of a listener (see `persona_of`).
pub fn persona_for(primary_genre: Option<&str>, total_plays: i64) -> (r: Persona)
    ensures
        r == persona_of(
            match primary_genre {
                Some(g) => Some(g@),
                None => None,
            },
            total_plays,
        ),
{
    let g = match primary_genre {
        Some(x) => to_lowercase(x),
        None => to_lowercase(NO_GENRE),
    };
    let g = g.as_str();
    if str_contains(g, "electron") || str_contains(g, "synth") || str_contains(g, "techno") {
        Persona::CyberArchitect
    } else if str_contains(g, "ambient") || str_contains(g, "chill") || str_contains(g, "lounge") {
        Persona::CosmicDrifter
    } else if str_contains(g, "hip") || str_contains(g, "rap") || str_contains(g, "trap") {
        Persona::RhythmStrategist
    } else if str_contains(g, "rock") || str_contains(g, "metal") {
        Persona::OverdrivenDriver
    } else if total_plays > MANY_PLAYS {
        Persona::AudioSingularity
    } else {
        Persona::FrequencyExplorer
    }
}

/// How the leading genre picks the persona. The genre (or `NO_GENRE` when
/// none was played) is read in lower case: one naming electronic music
/// ("electron", "synth", "techno") gives the cyber architect; else one
/// naming calm music ("ambient", "chill", "lounge") the cosmic drifter;
/// else one naming hip-hop ("hip", "rap", "trap") the rhythm strategist;
/// else one naming rock or metal the overdriven driver; any other genre
/// gives the audio singularity above `MANY_PLAYS` plays and the frequency
/// explorer otherwise.
pub proof fn law_persona_by_genre(genre: Option<Seq<char>>, plays: i64)
    ensures
        ({
            let g = lowercase(
                match genre {
                    Some(x) => x,
                    None => "Разное"@,
                },
            );
            let electronic = contains(g, "electron"@) || contains(g, "synth"@) || contains(g, "techno"@);
            let calm = contains(g, "ambient"@) || contains(g, "chill"@) || contains(g, "lounge"@);
            let hiphop = contains(g, "hip"@) || contains(g, "rap"@) || contains(g, "trap"@);
            let heavy = contains(g, "rock"@) || contains(g, "metal"@);
            let p = persona_of(genre, plays);
            &&& (electronic ==> p == Persona::CyberArchitect)
            &&& (!electronic && calm ==> p == Persona::CosmicDrifter)
            &&& (!electronic && !calm && hiphop ==> p == Persona::RhythmStrategist)
            &&& (!electronic && !calm && !hiphop && heavy ==> p == Persona::OverdrivenDriver)
            &&& (!electronic && !calm && !hiphop && !heavy && plays > 30 ==> p == Persona::AudioSingularity)
            &&& (!electronic && !calm && !hiphop && !heavy && plays <= 30 ==> p
                == Persona::FrequencyExplorer)
        }),
{
}

/// The title and tag shown for each persona.
pub proof fn law_persona_titles()
    ensures
        Persona::CyberArchitect.texts().0@ == "Кибер-Архитектор"@,
        Persona::CyberArchitect.texts().1@ == "#CYBER_SOUND"@,
        Persona::CosmicDrifter.texts().0@ == "Космический Дрейфующий"@,
        Persona::CosmicDrifter.texts().1@ == "#DEEP_DRIFT"@,
        Persona::RhythmStrategist.texts().0@ == "Ритмический Стратег"@,
        Persona::RhythmStrategist.texts().1@ == "#BEAT_DOMINATION"@,
        Persona::OverdrivenDriver.texts().0@ == "Перегруженный Драйвер"@,
        Persona::OverdrivenDriver.texts().1@ == "#HIGH_VOLTAGE"@,
        Persona::AudioSingularity.texts().0@ == "Аудио-Сингулярность"@,
        Persona::AudioSingularity.texts().1@ == "#INFINITE_AUDIO"@,
        Persona::FrequencyExplorer.texts().0@ == "Исследователь Частот"@,
        Persona::FrequencyExplorer.texts().1@ == "#EXPLORER"@,
{
}

impl Persona {
    /// Title, tag and description shown for the persona.
    pub open spec fn texts(self) -> (&'static str, &'static str, &'static str) {
        match self {
            Persona::CyberArchitect => (
                "Кибер-Архитектор",
                "#CYBER_SOUND",
                "Ваш пульс синхронизирован с синтезаторами и цифровым потоком SIGNAL.",
            ),
            Persona::CosmicDrifter => (
                "Космический Дрейфующий",
                "#DEEP_DRIFT",
                "Глубокие текстуры и медитативное спокойствие определяют ваше музыкальное поле.",
            ),
            Persona::RhythmStrategist => (
                "Ритмический Стратег",
                "#BEAT_DOMINATION",
                "Вы цените панчи, бас и честный флоу без лишних компромиссов.",
            ),
            Persona::OverdrivenDriver => (
                "Перегруженный Драйвер",
                "#HIGH_VOLTAGE",
                "Максимальная энергия и чистый драйв звучат в каждом вашем треке.",
            ),
            Persona::AudioSingularity => (
                "Аудио-Сингулярность",
                "#INFINITE_AUDIO",
                "Музыка звучит бесконечно, исследуя десятки различных жанров и миров.",
            ),
            Persona::FrequencyExplorer => (
                "Исследователь Частот",
                "#EXPLORER",
                "Вы только формируете свой звуковой почерк в экосистеме SIGNAL.",
            ),
        }
    }

    fn text_triple(&self) -> (r: (&'static str, &'static str, &'static str))
        ensures
            r == self.texts(),
    {
        match self {
            Persona::CyberArchitect => (
                "Кибер-Архитектор",
                "#CYBER_SOUND",
                "Ваш пульс синхронизирован с синтезаторами и цифровым потоком SIGNAL.",
            ),
            Persona::CosmicDrifter => (
                "Космический Дрейфующий",
                "#DEEP_DRIFT",
                "Глубокие текстуры и медитативное спокойствие определяют ваше музыкальное поле.",
            ),
            Persona::RhythmStrategist => (
                "Ритмический Стратег",
                "#BEAT_DOMINATION",
                "Вы цените панчи, бас и честный флоу без лишних компромиссов.",
            ),
            Persona::OverdrivenDriver => (
                "Перегруженный Драйвер",
                "#HIGH_VOLTAGE",
                "Максимальная энергия и чистый драйв звучат в каждом вашем треке.",
            ),
            Persona::AudioSingularity => (
                "Аудио-Сингулярность",
                "#INFINITE_AUDIO",
                "Музыка звучит бесконечно, исследуя десятки различных жанров и миров.",
            ),
            Persona::FrequencyExplorer => (
                "Исследователь Частот",
                "#EXPLORER",
                "Вы только формируете свой звуковой почерк в экосистеме SIGNAL.",
            ),
        }
    }

    /// The personality record shown for the persona.
    pub fn personality(&self) -> (r: MusicPersonality)
        ensures
            r.title@ == self.texts().0@,
            r.tag@ == self.texts().1@,
            r.description@ == self.texts().2@,
    {
        let (t, g, d) = self.text_triple();
        MusicPersonality { title: t.to_owned(), tag: g.to_owned(), description: d.to_owned() }
    }
}

/// The personality of a listener from the most played genre and the
/// total number of plays.
pub fn personality_for(primary_genre: Option<&str>, total_plays: i64) -> (r: MusicPersonality)
    ensures
        ({
            let p = persona_of(
                match primary_genre {
                    Some(g) => Some(g@),
                    None => None,
                },
                total_plays,
            );
            r.title@ == p.texts().0@ && r.tag@ == p.texts().1@ && r.description@ == p.texts().2@
        }),
{
    persona_for(primary_genre, total_plays).personality()
}

} // verus!
