//! English and Indonesian labels.
use vstd::prelude::*;

verus! {

/// Language of the labels.
#[derive(Debug, Clone, Copy, PartialEq, Eq, Structural)]
pub enum Lang {
    EN,
    ID,
}

/// The English or the Indonesian text, by language.
pub open spec fn by_lang(lang: Lang, en: Seq<char>, id: Seq<char>) -> Seq<char> {
    match lang {
        Lang::EN => en,
        Lang::ID => id,
    }
}

/// The text of [`Lang::humidity`].
pub open spec fn humidity_text(lang: Lang) -> Seq<char> {
    by_lang(lang, "Humidity"@, "Kelembaban"@)
}

/// The text of [`Lang::cloud_cover`].
pub open spec fn cloud_cover_text(lang: Lang) -> Seq<char> {
    by_lang(lang, "Cloud Cover"@, "Tutupan Awan"@)
}

/// The text of [`Lang::precipitation`].
pub open spec fn precipitation_text(lang: Lang) -> Seq<char> {
    by_lang(lang, "Precipitation"@, "Curah Hujan"@)
}

/// The text of [`Lang::wind`].
pub open spec fn wind_text(lang: Lang) -> Seq<char> {
    by_lang(lang, "Wind"@, "Angin"@)
}

/// The text of [`Lang::visibility`].
pub open spec fn visibility_text(lang: Lang) -> Seq<char> {
    by_lang(lang, "Visibility"@, "Jarak Pandang"@)
}

/// The text of [`Lang::source`].
pub open spec fn source_text(lang: Lang) -> Seq<char> {
    by_lang(
        lang,
        "Source: BMKG (Badan Meteorologi, Klimatologi, dan Geofisika)"@,
        "Sumber: BMKG (Badan Meteorologi, Klimatologi, dan Geofisika)"@,
    )
}

/// The text of [`Lang::today`].
pub open spec fn today_text(lang: Lang) -> Seq<char> {
    by_lang(lang, "Today"@, "Hari Ini"@)
}

/// The text of [`Lang::tomorrow`].
pub open spec fn tomorrow_text(lang: Lang) -> Seq<char> {
    by_lang(lang, "Tomorrow"@, "Besok"@)
}

/// The text of [`Lang::day_after_tomorrow`].
pub open spec fn day_after_tomorrow_text(lang: Lang) -> Seq<char> {
    by_lang(lang, "Day After Tomorrow"@, "Lusa"@)
}

/// The text of [`Lang::weather_report`].
pub open spec fn weather_report_text(lang: Lang) -> Seq<char> {
    by_lang(lang, "Weather Report"@, "Laporan Cuaca"@)
}

impl Lang {
    /// Label: humidity.
    pub fn humidity(&self) -> (r: &'static str)
        ensures
            r@ == humidity_text(*self),
    {
        match self {
            Lang::EN => "Humidity",
            Lang::ID => "Kelembaban",
        }
    }

    /// Label: cloud cover.
    pub fn cloud_cover(&self) -> (r: &'static str)
        ensures
            r@ == cloud_cover_text(*self),
    {
        match self {
            Lang::EN => "Cloud Cover",
            Lang::ID => "Tutupan Awan",
        }
    }

    /// Label: precipitation.
    pub fn precipitation(&self) -> (r: &'static str)
        ensures
            r@ == precipitation_text(*self),
    {
        match self {
            Lang::EN => "Precipitation",
            Lang::ID => "Curah Hujan",
        }
    }

    /// Label: wind.
    pub fn wind(&self) -> (r: &'static str)
        ensures
            r@ == wind_text(*self),
    {
        match self {
            Lang::EN => "Wind",
            Lang::ID => "Angin",
        }
    }

    /// Label: visibility.
    pub fn visibility(&self) -> (r: &'static str)
        ensures
            r@ == visibility_text(*self),
    {
        match self {
            Lang::EN => "Visibility",
            Lang::ID => "Jarak Pandang",
        }
    }

    /// Label: location.
    pub fn location(&self) -> (r: &'static str)
        ensures
            r@ == by_lang(*self, "Location"@, "Lokasi"@),
    {
        match self {
            Lang::EN => "Location",
            Lang::ID => "Lokasi",
        }
    }

    /// Label: source.
    pub fn source(&self) -> (r: &'static str)
        ensures
            r@ == source_text(*self),
    {
        match self {
            Lang::EN => "Source: BMKG (Badan Meteorologi, Klimatologi, dan Geofisika)",
            Lang::ID => "Sumber: BMKG (Badan Meteorologi, Klimatologi, dan Geofisika)",
        }
    }

    /// Label: today.
    pub fn today(&self) -> (r: &'static str)
        ensures
            r@ == today_text(*self),
    {
        match self {
            Lang::EN => "Today",
            Lang::ID => "Hari Ini",
        }
    }

    /// Label: tomorrow.
    pub fn tomorrow(&self) -> (r: &'static str)
        ensures
            r@ == tomorrow_text(*self),
    {
        match self {
            Lang::EN => "Tomorrow",
            Lang::ID => "Besok",
        }
    }

    /// Label: day after tomorrow.
    pub fn day_after_tomorrow(&self) -> (r: &'static str)
        ensures
            r@ == day_after_tomorrow_text(*self),
    {
        match self {
            Lang::EN => "Day After Tomorrow",
            Lang::ID => "Lusa",
        }
    }

    /// The forecast slot field that holds the weather description in this language.
    pub fn weather_desc_key(&self) -> (r: &'static str)
        ensures
            r@ == by_lang(*self, "weather_desc_en"@, "weather_desc"@),
    {
        match self {
            Lang::EN => "weather_desc_en",
            Lang::ID => "weather_desc",
        }
    }

    /// Label: temperature.
    pub fn temperature(&self) -> (r: &'static str)
        ensures
            r@ == by_lang(*self, "TEMPERATURE"@, "SUHU"@),
    {
        match self {
            Lang::EN => "TEMPERATURE",
            Lang::ID => "SUHU",
        }
    }

    /// Label: rainfall.
    pub fn rainfall(&self) -> (r: &'static str)
        ensures
            r@ == by_lang(*self, "RAINFALL (mm)"@, "HUJAN (mm)"@),
    {
        match self {
            Lang::EN => "RAINFALL (mm)",
            Lang::ID => "HUJAN (mm)",
        }
    }

    /// Label: humidity label.
    pub fn humidity_label(&self) -> (r: &'static str)
        ensures
            r@ == by_lang(*self, "HUMIDITY (%)"@, "KELEMBABAN (%)"@),
    {
        match self {
            Lang::EN => "HUMIDITY (%)",
            Lang::ID => "KELEMBABAN (%)",
        }
    }

    /// Label: wind label.
    pub fn wind_label(&self) -> (r: &'static str)
        ensures
            r@ == by_lang(*self, "WIND (km/h)"@, "ANGIN (km/h)"@),
    {
        match self {
            Lang::EN => "WIND (km/h)",
            Lang::ID => "ANGIN (km/h)",
        }
    }

    /// Label: cloud label.
    pub fn cloud_label(&self) -> (r: &'static str)
        ensures
            r@ == by_lang(*self, "CLOUD COVER (%)"@, "AWAN (%)"@),
    {
        match self {
            Lang::EN => "CLOUD COVER (%)",
            Lang::ID => "AWAN (%)",
        }
    }

    /// Label: visibility label.
    pub fn visibility_label(&self) -> (r: &'static str)
        ensures
            r@ == by_lang(*self, "VISIBILITY"@, "JARAK PANDANG"@),
    {
        match self {
            Lang::EN => "VISIBILITY",
            Lang::ID => "JARAK PANDANG",
        }
    }

    /// Label: total.
    pub fn total(&self) -> (r: &'static str)
        ensures
            r@ == by_lang(*self, "total"@, "total"@),
    {
        match self {
            Lang::EN => "total",
            Lang::ID => "total",
        }
    }

    /// Label: title of the weather report.
    pub fn weather_report(&self) -> (r: &'static str)
        ensures
            r@ == weather_report_text(*self),
    {
        match self {
            Lang::EN => "Weather Report",
            Lang::ID => "Laporan Cuaca",
        }
    }

    /// Unit of wind speed.
    pub fn wind_unit(&self) -> (r: &'static str)
        ensures
            r@ == "km/h"@,
    {
        "km/h"
    }
}

} // verus!
