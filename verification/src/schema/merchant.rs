//! How merchants are classified and presented.
use vstd::prelude::*;
use crate::text::str_eq;

verus! {

/// What a merchant sells or offers.
#[derive(Debug, Clone, PartialEq)]
pub enum MerchantType {
    Food { cuisine: Option<FoodCuisine>, food_type: FoodType },
    Electronics { mobile: bool, computer: bool, accessories: bool },
    Clothing { menswear: bool, womenswear: bool, childrenswear: bool },
    Supermarket,
    Health,
    Entertainment,
    Facility { facility_type: FacilityType },
    Room,
    Other,
}

/// Public facilities that are listed like merchants.
#[derive(Debug, Clone, Copy, PartialEq, Eq, Structural)]
pub enum FacilityType {
    Restroom,
    Atm,
    InformationDesk,
    Other,
}

/// The kind of food outlet.
#[derive(Debug, Clone, PartialEq)]
pub enum FoodType {
    Restaurant(FoodCuisine),
    Cafe,
    FastFood,
    Bakery,
    Bar,
    Other,
}

/// The cuisine a food outlet serves.
#[derive(Debug, Clone, PartialEq)]
pub enum FoodCuisine {
    Italian,
    Chinese { cuisine: ChineseFoodCuisine, specific: Option<String> },
    Indian,
    American,
    Japanese,
    Korean,
    French,
    Thai,
    Mexican,
    Mediterranean,
    Spanish,
    Vietnamese,
    MiddleEastern,
    African,
    Other(String),
}

/// The regional Chinese cuisines.
#[derive(Debug, Clone, Copy, PartialEq, Eq, Structural)]
pub enum ChineseFoodCuisine {
    Cantonese,
    Sichuan,
    Hunan,
    Jiangxi,
    Shanghai,
    Hangzhou,
    Ningbo,
    Northern,
    Other,
}

/// A merchant's account on a social platform.
#[derive(Debug, Clone, PartialEq)]
pub struct SocialMedia {
    pub platform: SocialMediaPlatform,
    pub handle: String,
    pub url: Option<String>,
}

/// The social platforms a merchant can link.
#[derive(Debug, Clone, PartialEq)]
pub enum SocialMediaPlatform {
    Facebook,
    Twitter,
    Instagram,
    LinkedIn,
    TikTok,
    WeChat,
    Weibo,
    Bilibili,
    RedNote,
    Reddit,
    Discord,
    Bluesky,
    WhatsApp,
    Telegram,
    Other(String),
}

/// The physical form of a merchant's premises.
#[derive(Debug, Clone, Copy, PartialEq, Eq, Structural)]
pub enum MerchantStyle {
    Store,
    Kiosk,
    PopUp,
    FoodTruck,
    Room,
}

impl MerchantStyle {
    /// The kebab-case style name.
    pub open spec fn name(self) -> Seq<char> {
        match self {
            MerchantStyle::Store => "store"@,
            MerchantStyle::Kiosk => "kiosk"@,
            MerchantStyle::PopUp => "pop-up"@,
            MerchantStyle::FoodTruck => "food-truck"@,
            MerchantStyle::Room => "room"@,
        }
    }

    /// The style a stored name stands for; an unknown name is read as a store.
    pub open spec fn from_name(s: Seq<char>) -> MerchantStyle {
        if s == "kiosk"@ {
            MerchantStyle::Kiosk
        } else if s == "pop-up"@ {
            MerchantStyle::PopUp
        } else if s == "food-truck"@ {
            MerchantStyle::FoodTruck
        } else if s == "room"@ {
            MerchantStyle::Room
        } else {
            MerchantStyle::Store
        }
    }

    /// Reads a stored style name; an unknown name is read as a store.
    pub fn from_stored(s: &str) -> (style: Self)
        ensures
            style == Self::from_name(s@),
    {
        if str_eq(s, "store") {
            proof {
                reveal_strlit("store");
                reveal_strlit("kiosk");
                reveal_strlit("pop-up");
                reveal_strlit("food-truck");
                reveal_strlit("room");
                assert("store"@[0] == 's' && "kiosk"@[0] == 'k' && "pop-up"@[0] == 'p');
                assert("food-truck"@[0] == 'f' && "room"@[0] == 'r');
            }
            MerchantStyle::Store
        } else if str_eq(s, "kiosk") {
            MerchantStyle::Kiosk
        } else if str_eq(s, "pop-up") {
            MerchantStyle::PopUp
        } else if str_eq(s, "food-truck") {
            MerchantStyle::FoodTruck
        } else if str_eq(s, "room") {
            MerchantStyle::Room
        } else {
            MerchantStyle::Store
        }
    }

    /// The kebab-case style name.
    pub fn to_string(&self) -> (s: String)
        ensures
            s@ == self.name(),
    {
        match self {
            MerchantStyle::Store => "store".to_string(),
            MerchantStyle::Kiosk => "kiosk".to_string(),
            MerchantStyle::PopUp => "pop-up".to_string(),
            MerchantStyle::FoodTruck => "food-truck".to_string(),
            MerchantStyle::Room => "room".to_string(),
        }
    }
}

/// Reading back the stored name of a style gives the style.
pub proof fn law_merchant_style_name_roundtrip(style: MerchantStyle)
    ensures
        MerchantStyle::from_name(style.name()) == style,
{
    reveal_strlit("store");
    reveal_strlit("kiosk");
    reveal_strlit("pop-up");
    reveal_strlit("food-truck");
    reveal_strlit("room");
    assert("store"@[0] == 's' && "kiosk"@[0] == 'k' && "pop-up"@[0] == 'p');
    assert("food-truck"@[0] == 'f' && "room"@[0] == 'r');
}

/// Each merchant style is stored under its fixed kebab-case name.
pub proof fn law_merchant_style_names(m: MerchantStyle)
    ensures
        m == MerchantStyle::Store ==> m.name() == "store"@,
        m == MerchantStyle::Kiosk ==> m.name() == "kiosk"@,
        m == MerchantStyle::PopUp ==> m.name() == "pop-up"@,
        m == MerchantStyle::FoodTruck ==> m.name() == "food-truck"@,
        m == MerchantStyle::Room ==> m.name() == "room"@,
{
}

} // verus!
