//! The closed catalogues of identities: what can be crafted, what it is made
//! of, and the categories that group the crafts.
//!
//! Crafts and categories each carry a dense numeric code, so that they can
//! key tables and graph nodes by a plain integer.

use vstd::prelude::*;

verus! {

/// Everything the workshop can craft.
#[derive(Debug, Clone, Copy, PartialOrd, Ord, PartialEq, Eq, Hash, Structural)]
pub enum HandicraftName {
    IsleworksPotion,
    IsleworksFiresand,
    IsleworksWoodenChair,
    IsleworksGrilledClam,
    IsleworksNecklace,
    IsleworksCoralRing,
    IsleworksBarbut,
    IsleworksMacuahuitl,
    IsleworksSauerkraut,
    IsleworksBakedPumpkin,
    IsleworksTunic,
    IsleworksCulinaryKnife,
    IsleworksBrush,
    IsleworksBoiledEgg,
    IsleworksHora,
    IsleworksEarrings,
    IsleworksButter,
    IsleworksBrickCounter,
    BronzeSheep,
    IsleworksGrowthFormula,
    IsleworksGarnetRapier,
    IsleworksSpruceRoundShield,
    IsleworksSharkOil,
    IsleworksSilverEarCuffs,
    IsleworksSweetPopoto,
    IsleworksParsnipSalad,
    IsleworksCaramels,
    IsleworksRibbon,
    IsleworksRope,
    IsleworksCavaliersHat,
    IsleworksHorn,
    IsleworksSaltCod,
    IsleworksSquidInk,
    IsleworksEssentialDraught,
    IsleberryJam,
    IsleworksTomatoRelish,
    IsleworksOnionSoup,
    IslefishPie,
    IsleworksCornFlakes,
    IsleworksPickledRadish,
    IsleworksIronAxe,
    IsleworksQuartzRing,
    IsleworksPorcelainVase,
    IsleworksVegetableJuice,
    IsleworksPumpkinPudding,
    IsleworksSheepfluffRug,
    IsleworksGardenScythe,
    IsleworksBed,
    IsleworksScaleFingers,
    IsleworksCrook,
}

/// Everything a craft can be made of.
#[derive(Debug, Clone, Copy, PartialOrd, Ord, PartialEq, Eq, Hash, Structural)]
pub enum MaterialName {
    IslandAlyssum,
    IslandApple,
    IslandBranch,
    IslandCabbage,
    IslandClam,
    IslandClay,
    IslandCopperOre,
    IslandCoral,
    IslandCorn,
    IslandCottonBoll,
    IslandHammerhead,
    IslandHemp,
    IslandJellyfish,
    IslandLaver,
    IslandLimestone,
    IslandLog,
    IslandOnion,
    IslandPalmLeaf,
    IslandPalmLog,
    IslandParsnip,
    IslandPopoto,
    IslandPumpkin,
    IslandRadish,
    IslandRockSalt,
    IslandSand,
    IslandSap,
    IslandSilverOre,
    IslandSpruceLog,
    IslandSquid,
    IslandStone,
    IslandSugarcane,
    IslandTinsand,
    IslandIronOre,
    IslandQuartz,
    IslandLeucogranite,
    IslandTomato,
    IslandVine,
    IslandWheat,
    Isleberry,
    Islefish,
    Islewort,
    RawIslandGarnet,
    SanctuaryCarapace,
    SanctuaryClaw,
    SanctuaryEgg,
    SanctuaryFang,
    SanctuaryFeather,
    SanctuaryFleece,
    SanctuaryFur,
    SanctuaryHorn,
    SanctuaryMilk,
}

/// The categories a craft can belong to.
#[derive(Debug, Clone, Copy, PartialOrd, Ord, PartialEq, Eq, Hash, Structural)]
pub enum CategoryName {
    Accessories,
    Arms,
    Attire,
    Concoctions,
    Confections,
    CreatureCreations,
    Foodstuffs,
    Furnishings,
    Ingredients,
    MarineMerchandise,
    Metalworks,
    PreservedFood,
    Sundries,
    Textiles,
    UnburiedTreasures,
    Woodworks,
}

/// How many crafts the catalogue knows.
pub const HANDICRAFT_COUNT: u8 = 50;

impl HandicraftName {
    /// The position of this entry in the catalogue, counted from zero.
    pub open spec fn spec_code(self) -> u8 {
        match self {
            HandicraftName::IsleworksPotion => 0,
            HandicraftName::IsleworksFiresand => 1,
            HandicraftName::IsleworksWoodenChair => 2,
            HandicraftName::IsleworksGrilledClam => 3,
            HandicraftName::IsleworksNecklace => 4,
            HandicraftName::IsleworksCoralRing => 5,
            HandicraftName::IsleworksBarbut => 6,
            HandicraftName::IsleworksMacuahuitl => 7,
            HandicraftName::IsleworksSauerkraut => 8,
            HandicraftName::IsleworksBakedPumpkin => 9,
            HandicraftName::IsleworksTunic => 10,
            HandicraftName::IsleworksCulinaryKnife => 11,
            HandicraftName::IsleworksBrush => 12,
            HandicraftName::IsleworksBoiledEgg => 13,
            HandicraftName::IsleworksHora => 14,
            HandicraftName::IsleworksEarrings => 15,
            HandicraftName::IsleworksButter => 16,
            HandicraftName::IsleworksBrickCounter => 17,
            HandicraftName::BronzeSheep => 18,
            HandicraftName::IsleworksGrowthFormula => 19,
            HandicraftName::IsleworksGarnetRapier => 20,
            HandicraftName::IsleworksSpruceRoundShield => 21,
            HandicraftName::IsleworksSharkOil => 22,
            HandicraftName::IsleworksSilverEarCuffs => 23,
            HandicraftName::IsleworksSweetPopoto => 24,
            HandicraftName::IsleworksParsnipSalad => 25,
            HandicraftName::IsleworksCaramels => 26,
            HandicraftName::IsleworksRibbon => 27,
            HandicraftName::IsleworksRope => 28,
            HandicraftName::IsleworksCavaliersHat => 29,
            HandicraftName::IsleworksHorn => 30,
            HandicraftName::IsleworksSaltCod => 31,
            HandicraftName::IsleworksSquidInk => 32,
            HandicraftName::IsleworksEssentialDraught => 33,
            HandicraftName::IsleberryJam => 34,
            HandicraftName::IsleworksTomatoRelish => 35,
            HandicraftName::IsleworksOnionSoup => 36,
            HandicraftName::IslefishPie => 37,
            HandicraftName::IsleworksCornFlakes => 38,
            HandicraftName::IsleworksPickledRadish => 39,
            HandicraftName::IsleworksIronAxe => 40,
            HandicraftName::IsleworksQuartzRing => 41,
            HandicraftName::IsleworksPorcelainVase => 42,
            HandicraftName::IsleworksVegetableJuice => 43,
            HandicraftName::IsleworksPumpkinPudding => 44,
            HandicraftName::IsleworksSheepfluffRug => 45,
            HandicraftName::IsleworksGardenScythe => 46,
            HandicraftName::IsleworksBed => 47,
            HandicraftName::IsleworksScaleFingers => 48,
            HandicraftName::IsleworksCrook => 49,
        }
    }

    /// The entry that stands at position `code`, if there is one.
    pub open spec fn spec_from_code(code: u8) -> Option<HandicraftName> {
        match code {
            0 => Some(HandicraftName::IsleworksPotion),
            1 => Some(HandicraftName::IsleworksFiresand),
            2 => Some(HandicraftName::IsleworksWoodenChair),
            3 => Some(HandicraftName::IsleworksGrilledClam),
            4 => Some(HandicraftName::IsleworksNecklace),
            5 => Some(HandicraftName::IsleworksCoralRing),
            6 => Some(HandicraftName::IsleworksBarbut),
            7 => Some(HandicraftName::IsleworksMacuahuitl),
            8 => Some(HandicraftName::IsleworksSauerkraut),
            9 => Some(HandicraftName::IsleworksBakedPumpkin),
            10 => Some(HandicraftName::IsleworksTunic),
            11 => Some(HandicraftName::IsleworksCulinaryKnife),
            12 => Some(HandicraftName::IsleworksBrush),
            13 => Some(HandicraftName::IsleworksBoiledEgg),
            14 => Some(HandicraftName::IsleworksHora),
            15 => Some(HandicraftName::IsleworksEarrings),
            16 => Some(HandicraftName::IsleworksButter),
            17 => Some(HandicraftName::IsleworksBrickCounter),
            18 => Some(HandicraftName::BronzeSheep),
            19 => Some(HandicraftName::IsleworksGrowthFormula),
            20 => Some(HandicraftName::IsleworksGarnetRapier),
            21 => Some(HandicraftName::IsleworksSpruceRoundShield),
            22 => Some(HandicraftName::IsleworksSharkOil),
            23 => Some(HandicraftName::IsleworksSilverEarCuffs),
            24 => Some(HandicraftName::IsleworksSweetPopoto),
            25 => Some(HandicraftName::IsleworksParsnipSalad),
            26 => Some(HandicraftName::IsleworksCaramels),
            27 => Some(HandicraftName::IsleworksRibbon),
            28 => Some(HandicraftName::IsleworksRope),
            29 => Some(HandicraftName::IsleworksCavaliersHat),
            30 => Some(HandicraftName::IsleworksHorn),
            31 => Some(HandicraftName::IsleworksSaltCod),
            32 => Some(HandicraftName::IsleworksSquidInk),
            33 => Some(HandicraftName::IsleworksEssentialDraught),
            34 => Some(HandicraftName::IsleberryJam),
            35 => Some(HandicraftName::IsleworksTomatoRelish),
            36 => Some(HandicraftName::IsleworksOnionSoup),
            37 => Some(HandicraftName::IslefishPie),
            38 => Some(HandicraftName::IsleworksCornFlakes),
            39 => Some(HandicraftName::IsleworksPickledRadish),
            40 => Some(HandicraftName::IsleworksIronAxe),
            41 => Some(HandicraftName::IsleworksQuartzRing),
            42 => Some(HandicraftName::IsleworksPorcelainVase),
            43 => Some(HandicraftName::IsleworksVegetableJuice),
            44 => Some(HandicraftName::IsleworksPumpkinPudding),
            45 => Some(HandicraftName::IsleworksSheepfluffRug),
            46 => Some(HandicraftName::IsleworksGardenScythe),
            47 => Some(HandicraftName::IsleworksBed),
            48 => Some(HandicraftName::IsleworksScaleFingers),
            49 => Some(HandicraftName::IsleworksCrook),
            _ => None,
        }
    }

    /// The position of this entry in the catalogue, counted from zero.
    #[verifier::when_used_as_spec(spec_code)]
    pub fn code(self) -> (code: u8)
        ensures
            code == self.spec_code(),
            code < HANDICRAFT_COUNT,
    {
        match self {
            HandicraftName::IsleworksPotion => 0,
            HandicraftName::IsleworksFiresand => 1,
            HandicraftName::IsleworksWoodenChair => 2,
            HandicraftName::IsleworksGrilledClam => 3,
            HandicraftName::IsleworksNecklace => 4,
            HandicraftName::IsleworksCoralRing => 5,
            HandicraftName::IsleworksBarbut => 6,
            HandicraftName::IsleworksMacuahuitl => 7,
            HandicraftName::IsleworksSauerkraut => 8,
            HandicraftName::IsleworksBakedPumpkin => 9,
            HandicraftName::IsleworksTunic => 10,
            HandicraftName::IsleworksCulinaryKnife => 11,
            HandicraftName::IsleworksBrush => 12,
            HandicraftName::IsleworksBoiledEgg => 13,
            HandicraftName::IsleworksHora => 14,
            HandicraftName::IsleworksEarrings => 15,
            HandicraftName::IsleworksButter => 16,
            HandicraftName::IsleworksBrickCounter => 17,
            HandicraftName::BronzeSheep => 18,
            HandicraftName::IsleworksGrowthFormula => 19,
            HandicraftName::IsleworksGarnetRapier => 20,
            HandicraftName::IsleworksSpruceRoundShield => 21,
            HandicraftName::IsleworksSharkOil => 22,
            HandicraftName::IsleworksSilverEarCuffs => 23,
            HandicraftName::IsleworksSweetPopoto => 24,
            HandicraftName::IsleworksParsnipSalad => 25,
            HandicraftName::IsleworksCaramels => 26,
            HandicraftName::IsleworksRibbon => 27,
            HandicraftName::IsleworksRope => 28,
            HandicraftName::IsleworksCavaliersHat => 29,
            HandicraftName::IsleworksHorn => 30,
            HandicraftName::IsleworksSaltCod => 31,
            HandicraftName::IsleworksSquidInk => 32,
            HandicraftName::IsleworksEssentialDraught => 33,
            HandicraftName::IsleberryJam => 34,
            HandicraftName::IsleworksTomatoRelish => 35,
            HandicraftName::IsleworksOnionSoup => 36,
            HandicraftName::IslefishPie => 37,
            HandicraftName::IsleworksCornFlakes => 38,
            HandicraftName::IsleworksPickledRadish => 39,
            HandicraftName::IsleworksIronAxe => 40,
            HandicraftName::IsleworksQuartzRing => 41,
            HandicraftName::IsleworksPorcelainVase => 42,
            HandicraftName::IsleworksVegetableJuice => 43,
            HandicraftName::IsleworksPumpkinPudding => 44,
            HandicraftName::IsleworksSheepfluffRug => 45,
            HandicraftName::IsleworksGardenScythe => 46,
            HandicraftName::IsleworksBed => 47,
            HandicraftName::IsleworksScaleFingers => 48,
            HandicraftName::IsleworksCrook => 49,
        }
    }

    /// The entry that stands at position `code`, if there is one.
    #[verifier::when_used_as_spec(spec_from_code)]
    pub fn from_code(code: u8) -> (entry: Option<HandicraftName>)
        ensures
            entry == HandicraftName::spec_from_code(code),
            entry is Some <==> code < HANDICRAFT_COUNT,
    {
        match code {
            0 => Some(HandicraftName::IsleworksPotion),
            1 => Some(HandicraftName::IsleworksFiresand),
            2 => Some(HandicraftName::IsleworksWoodenChair),
            3 => Some(HandicraftName::IsleworksGrilledClam),
            4 => Some(HandicraftName::IsleworksNecklace),
            5 => Some(HandicraftName::IsleworksCoralRing),
            6 => Some(HandicraftName::IsleworksBarbut),
            7 => Some(HandicraftName::IsleworksMacuahuitl),
            8 => Some(HandicraftName::IsleworksSauerkraut),
            9 => Some(HandicraftName::IsleworksBakedPumpkin),
            10 => Some(HandicraftName::IsleworksTunic),
            11 => Some(HandicraftName::IsleworksCulinaryKnife),
            12 => Some(HandicraftName::IsleworksBrush),
            13 => Some(HandicraftName::IsleworksBoiledEgg),
            14 => Some(HandicraftName::IsleworksHora),
            15 => Some(HandicraftName::IsleworksEarrings),
            16 => Some(HandicraftName::IsleworksButter),
            17 => Some(HandicraftName::IsleworksBrickCounter),
            18 => Some(HandicraftName::BronzeSheep),
            19 => Some(HandicraftName::IsleworksGrowthFormula),
            20 => Some(HandicraftName::IsleworksGarnetRapier),
            21 => Some(HandicraftName::IsleworksSpruceRoundShield),
            22 => Some(HandicraftName::IsleworksSharkOil),
            23 => Some(HandicraftName::IsleworksSilverEarCuffs),
            24 => Some(HandicraftName::IsleworksSweetPopoto),
            25 => Some(HandicraftName::IsleworksParsnipSalad),
            26 => Some(HandicraftName::IsleworksCaramels),
            27 => Some(HandicraftName::IsleworksRibbon),
            28 => Some(HandicraftName::IsleworksRope),
            29 => Some(HandicraftName::IsleworksCavaliersHat),
            30 => Some(HandicraftName::IsleworksHorn),
            31 => Some(HandicraftName::IsleworksSaltCod),
            32 => Some(HandicraftName::IsleworksSquidInk),
            33 => Some(HandicraftName::IsleworksEssentialDraught),
            34 => Some(HandicraftName::IsleberryJam),
            35 => Some(HandicraftName::IsleworksTomatoRelish),
            36 => Some(HandicraftName::IsleworksOnionSoup),
            37 => Some(HandicraftName::IslefishPie),
            38 => Some(HandicraftName::IsleworksCornFlakes),
            39 => Some(HandicraftName::IsleworksPickledRadish),
            40 => Some(HandicraftName::IsleworksIronAxe),
            41 => Some(HandicraftName::IsleworksQuartzRing),
            42 => Some(HandicraftName::IsleworksPorcelainVase),
            43 => Some(HandicraftName::IsleworksVegetableJuice),
            44 => Some(HandicraftName::IsleworksPumpkinPudding),
            45 => Some(HandicraftName::IsleworksSheepfluffRug),
            46 => Some(HandicraftName::IsleworksGardenScythe),
            47 => Some(HandicraftName::IsleworksBed),
            48 => Some(HandicraftName::IsleworksScaleFingers),
            49 => Some(HandicraftName::IsleworksCrook),
            _ => None,
        }
    }

    /// Coding and decoding undo each other, so no two entries share a code.
    pub proof fn lemma_code_round_trip(self)
        ensures
            self.spec_code() < HANDICRAFT_COUNT,
            HandicraftName::spec_from_code(self.spec_code()) == Some(self),
    {
    }

    /// Every code below the count names exactly one entry.
    pub proof fn lemma_decode_round_trip(code: u8)
        ensures
            code < HANDICRAFT_COUNT <==> HandicraftName::spec_from_code(code) is Some,
            HandicraftName::spec_from_code(code) matches Some(entry) ==> entry.spec_code() == code,
    {
    }

    /// Distinct entries have distinct codes.
    pub proof fn lemma_code_injective(self, other: HandicraftName)
        ensures
            self.spec_code() == other.spec_code() <==> self == other,
    {
        self.lemma_code_round_trip();
        other.lemma_code_round_trip();
    }
}

/// How many categories the catalogue knows.
pub const CATEGORY_COUNT: u8 = 16;

impl CategoryName {
    /// The position of this entry in the catalogue, counted from zero.
    pub open spec fn spec_code(self) -> u8 {
        match self {
            CategoryName::Accessories => 0,
            CategoryName::Arms => 1,
            CategoryName::Attire => 2,
            CategoryName::Concoctions => 3,
            CategoryName::Confections => 4,
            CategoryName::CreatureCreations => 5,
            CategoryName::Foodstuffs => 6,
            CategoryName::Furnishings => 7,
            CategoryName::Ingredients => 8,
            CategoryName::MarineMerchandise => 9,
            CategoryName::Metalworks => 10,
            CategoryName::PreservedFood => 11,
            CategoryName::Sundries => 12,
            CategoryName::Textiles => 13,
            CategoryName::UnburiedTreasures => 14,
            CategoryName::Woodworks => 15,
        }
    }

    /// The entry that stands at position `code`, if there is one.
    pub open spec fn spec_from_code(code: u8) -> Option<CategoryName> {
        match code {
            0 => Some(CategoryName::Accessories),
            1 => Some(CategoryName::Arms),
            2 => Some(CategoryName::Attire),
            3 => Some(CategoryName::Concoctions),
            4 => Some(CategoryName::Confections),
            5 => Some(CategoryName::CreatureCreations),
            6 => Some(CategoryName::Foodstuffs),
            7 => Some(CategoryName::Furnishings),
            8 => Some(CategoryName::Ingredients),
            9 => Some(CategoryName::MarineMerchandise),
            10 => Some(CategoryName::Metalworks),
            11 => Some(CategoryName::PreservedFood),
            12 => Some(CategoryName::Sundries),
            13 => Some(CategoryName::Textiles),
            14 => Some(CategoryName::UnburiedTreasures),
            15 => Some(CategoryName::Woodworks),
            _ => None,
        }
    }

    /// The position of this entry in the catalogue, counted from zero.
    #[verifier::when_used_as_spec(spec_code)]
    pub fn code(self) -> (code: u8)
        ensures
            code == self.spec_code(),
            code < CATEGORY_COUNT,
    {
        match self {
            CategoryName::Accessories => 0,
            CategoryName::Arms => 1,
            CategoryName::Attire => 2,
            CategoryName::Concoctions => 3,
            CategoryName::Confections => 4,
            CategoryName::CreatureCreations => 5,
            CategoryName::Foodstuffs => 6,
            CategoryName::Furnishings => 7,
            CategoryName::Ingredients => 8,
            CategoryName::MarineMerchandise => 9,
            CategoryName::Metalworks => 10,
            CategoryName::PreservedFood => 11,
            CategoryName::Sundries => 12,
            CategoryName::Textiles => 13,
            CategoryName::UnburiedTreasures => 14,
            CategoryName::Woodworks => 15,
        }
    }

    /// The entry that stands at position `code`, if there is one.
    #[verifier::when_used_as_spec(spec_from_code)]
    pub fn from_code(code: u8) -> (entry: Option<CategoryName>)
        ensures
            entry == CategoryName::spec_from_code(code),
            entry is Some <==> code < CATEGORY_COUNT,
    {
        match code {
            0 => Some(CategoryName::Accessories),
            1 => Some(CategoryName::Arms),
            2 => Some(CategoryName::Attire),
            3 => Some(CategoryName::Concoctions),
            4 => Some(CategoryName::Confections),
            5 => Some(CategoryName::CreatureCreations),
            6 => Some(CategoryName::Foodstuffs),
            7 => Some(CategoryName::Furnishings),
            8 => Some(CategoryName::Ingredients),
            9 => Some(CategoryName::MarineMerchandise),
            10 => Some(CategoryName::Metalworks),
            11 => Some(CategoryName::PreservedFood),
            12 => Some(CategoryName::Sundries),
            13 => Some(CategoryName::Textiles),
            14 => Some(CategoryName::UnburiedTreasures),
            15 => Some(CategoryName::Woodworks),
            _ => None,
        }
    }

    /// Coding and decoding undo each other, so no two entries share a code.
    pub proof fn lemma_code_round_trip(self)
        ensures
            self.spec_code() < CATEGORY_COUNT,
            CategoryName::spec_from_code(self.spec_code()) == Some(self),
    {
    }

    /// Every code below the count names exactly one entry.
    pub proof fn lemma_decode_round_trip(code: u8)
        ensures
            code < CATEGORY_COUNT <==> CategoryName::spec_from_code(code) is Some,
            CategoryName::spec_from_code(code) matches Some(entry) ==> entry.spec_code() == code,
    {
    }

    /// Distinct entries have distinct codes.
    pub proof fn lemma_code_injective(self, other: CategoryName)
        ensures
            self.spec_code() == other.spec_code() <==> self == other,
    {
        self.lemma_code_round_trip();
        other.lemma_code_round_trip();
    }
}

} // verus!
