//! Watchlist topic labels.
use vstd::prelude::*;

use crate::text::str_eq;

verus! {

/// A label that the watchlist attaches to an entity.
#[derive(Debug, Clone, Copy, PartialEq, Eq, Hash, Structural)]
pub enum Flagkind {
    Crime,
    Fraud,
    Cybercrime,
    FinancialCrime,
    EnvironmentViolations,
    Theft,
    WarCrimes,
    CriminalLeaderShip,
    Terrorism,
    Trafficking,
    DrugTrafficking,
    HumanTrafficking,
    Wanted,
    Offshore,
    ShellCompany,
    PublicListedCompany,
    Disqualified,
    Government,
    NationalGovernment,
    StateGovernment,
    MunicipalGovernment,
    StateOwnedEnterprise,
    IntergovernmentalOrg,
    HeadOfGovernment,
    CivilService,
    ExecutiveBranchOfGovernment,
    LegislativeBranchOfGovernment,
    JudicialBranchOfGovernment,
    SecurityServices,
    CentralBankingAndFinIntegrity,
    FinancialServices,
    Bank,
    Fund,
    FinancialAdvisor,
    RegulatorAction,
    RegulatorWarning,
    Politician,
    NonPep,
    CloseAsociate,
    Judge,
    CivilServant,
    Diplomat,
    Lawyer,
    Accountant,
    Spy,
    Oligarch,
    Journalist,
    Activist,
    Lobbyist,
    PoliticalParty,
    Union,
    Religion,
    Military,
    FrozenAsset,
    SanctionedEntity,
    SanctionLinkedEntity,
    CounterSanctionedEntity,
    ExportControlled,
    TradeRisk,
    DEbarredEntity,
    PersonOfInterest,
}

/// The flag that a watchlist topic string stands for; unknown topics have none.
pub open spec fn topic_flag(t: Seq<char>) -> Option<Flagkind> {
    if t == "crime"@ {
        Some(Flagkind::Crime)
    } else if t == "crime.fraud"@ {
        Some(Flagkind::Fraud)
    } else if t == "crime.cyber"@ {
        Some(Flagkind::Cybercrime)
    } else if t == "crime.fin"@ {
        Some(Flagkind::FinancialCrime)
    } else if t == "crime.env"@ {
        Some(Flagkind::EnvironmentViolations)
    } else if t == "crime.theft"@ {
        Some(Flagkind::Theft)
    } else if t == "crime.war"@ {
        Some(Flagkind::WarCrimes)
    } else if t == "crime.boss"@ {
        Some(Flagkind::CriminalLeaderShip)
    } else if t == "crime.terror"@ {
        Some(Flagkind::Terrorism)
    } else if t == "crime.traffick"@ {
        Some(Flagkind::Trafficking)
    } else if t == "crime.traffick.drug"@ {
        Some(Flagkind::DrugTrafficking)
    } else if t == "crime.traffick.human"@ {
        Some(Flagkind::HumanTrafficking)
    } else if t == "wanted"@ {
        Some(Flagkind::Wanted)
    } else if t == "corp.offshore"@ {
        Some(Flagkind::Offshore)
    } else if t == "corp.shell"@ {
        Some(Flagkind::ShellCompany)
    } else if t == "corp.public"@ {
        Some(Flagkind::PublicListedCompany)
    } else if t == "corp.disqual"@ {
        Some(Flagkind::Disqualified)
    } else if t == "gov"@ {
        Some(Flagkind::Government)
    } else if t == "gov.national"@ {
        Some(Flagkind::NationalGovernment)
    } else if t == "gov.state"@ {
        Some(Flagkind::StateGovernment)
    } else if t == "gov.muni"@ {
        Some(Flagkind::MunicipalGovernment)
    } else if t == "gov.soe"@ {
        Some(Flagkind::StateOwnedEnterprise)
    } else if t == "gov.igo"@ {
        Some(Flagkind::IntergovernmentalOrg)
    } else if t == "gov.head"@ {
        Some(Flagkind::HeadOfGovernment)
    } else if t == "gov.admin"@ {
        Some(Flagkind::CivilService)
    } else if t == "gov.executive"@ {
        Some(Flagkind::ExecutiveBranchOfGovernment)
    } else if t == "gov.legislative"@ {
        Some(Flagkind::LegislativeBranchOfGovernment)
    } else if t == "gov.judicial"@ {
        Some(Flagkind::JudicialBranchOfGovernment)
    } else if t == "gov.security"@ {
        Some(Flagkind::SecurityServices)
    } else if t == "gov.financial"@ {
        Some(Flagkind::CentralBankingAndFinIntegrity)
    } else if t == "fin"@ {
        Some(Flagkind::FinancialServices)
    } else if t == "fin.bank"@ {
        Some(Flagkind::Bank)
    } else if t == "fin.fund"@ {
        Some(Flagkind::Fund)
    } else if t == "fin.adivsor"@ {
        Some(Flagkind::FinancialAdvisor)
    } else if t == "reg.action"@ {
        Some(Flagkind::RegulatorAction)
    } else if t == "reg.warn"@ {
        Some(Flagkind::RegulatorWarning)
    } else if t == "role.pep"@ {
        Some(Flagkind::Politician)
    } else if t == "role.pol"@ {
        Some(Flagkind::NonPep)
    } else if t == "role.rca"@ {
        Some(Flagkind::CloseAsociate)
    } else if t == "role.judge"@ {
        Some(Flagkind::Judge)
    } else if t == "role.civil"@ {
        Some(Flagkind::CivilServant)
    } else if t == "role.diplo"@ {
        Some(Flagkind::Diplomat)
    } else if t == "role.lawyer"@ {
        Some(Flagkind::Lawyer)
    } else if t == "role.acct"@ {
        Some(Flagkind::Accountant)
    } else if t == "role.spy"@ {
        Some(Flagkind::Spy)
    } else if t == "role.oligarch"@ {
        Some(Flagkind::Oligarch)
    } else if t == "role.journo"@ {
        Some(Flagkind::Journalist)
    } else if t == "role.act"@ {
        Some(Flagkind::Activist)
    } else if t == "role.lobby"@ {
        Some(Flagkind::Lobbyist)
    } else if t == "pol.party"@ {
        Some(Flagkind::PoliticalParty)
    } else if t == "pol.union"@ {
        Some(Flagkind::Union)
    } else if t == "rel"@ {
        Some(Flagkind::Religion)
    } else if t == "mil"@ {
        Some(Flagkind::Military)
    } else if t == "asset.frozen"@ {
        Some(Flagkind::FrozenAsset)
    } else if t == "sanction"@ {
        Some(Flagkind::SanctionedEntity)
    } else if t == "sanction.linked"@ {
        Some(Flagkind::SanctionLinkedEntity)
    } else if t == "sanction.counter"@ {
        Some(Flagkind::CounterSanctionedEntity)
    } else if t == "export.control"@ {
        Some(Flagkind::ExportControlled)
    } else if t == "export.risk"@ {
        Some(Flagkind::TradeRisk)
    } else if t == "debarment"@ {
        Some(Flagkind::DEbarredEntity)
    } else if t == "poi"@ {
        Some(Flagkind::PersonOfInterest)
    } else {
        None
    }
}

/// The name under which the store keeps a flag kind.
pub open spec fn flag_label(k: Flagkind) -> Seq<char> {
    match k {
        Flagkind::Crime => "crime"@,
        Flagkind::Fraud => "fraud"@,
        Flagkind::Cybercrime => "cybercrime"@,
        Flagkind::FinancialCrime => "financial_crime"@,
        Flagkind::EnvironmentViolations => "environment_violations"@,
        Flagkind::Theft => "theft"@,
        Flagkind::WarCrimes => "war_crimes"@,
        Flagkind::CriminalLeaderShip => "criminal_leadership"@,
        Flagkind::Terrorism => "terrorism"@,
        Flagkind::Trafficking => "trafficking"@,
        Flagkind::DrugTrafficking => "drug_trafficking"@,
        Flagkind::HumanTrafficking => "human_trafficking"@,
        Flagkind::Wanted => "wanted"@,
        Flagkind::Offshore => "offshore"@,
        Flagkind::ShellCompany => "shell_company"@,
        Flagkind::PublicListedCompany => "public_listed_company"@,
        Flagkind::Disqualified => "disqualified"@,
        Flagkind::Government => "government"@,
        Flagkind::NationalGovernment => "national_government"@,
        Flagkind::StateGovernment => "state_government"@,
        Flagkind::MunicipalGovernment => "municipal_government"@,
        Flagkind::StateOwnedEnterprise => "state_owned_enterprise"@,
        Flagkind::IntergovernmentalOrg => "intergovernmental_org"@,
        Flagkind::HeadOfGovernment => "head_of_government"@,
        Flagkind::CivilService => "civil_service"@,
        Flagkind::ExecutiveBranchOfGovernment => "executive_branch_of_government"@,
        Flagkind::LegislativeBranchOfGovernment => "legislative_branch_of_government"@,
        Flagkind::JudicialBranchOfGovernment => "judicial_branch_of_government"@,
        Flagkind::SecurityServices => "security_services"@,
        Flagkind::CentralBankingAndFinIntegrity => "central_banking_and_fin_integrity"@,
        Flagkind::FinancialServices => "financial_services"@,
        Flagkind::Bank => "bank"@,
        Flagkind::Fund => "fund"@,
        Flagkind::FinancialAdvisor => "financial_advisor"@,
        Flagkind::RegulatorAction => "regulator_action"@,
        Flagkind::RegulatorWarning => "regulator_warning"@,
        Flagkind::Politician => "politician"@,
        Flagkind::NonPep => "non_pep"@,
        Flagkind::CloseAsociate => "close_associate"@,
        Flagkind::Judge => "judge"@,
        Flagkind::CivilServant => "civil_servant"@,
        Flagkind::Diplomat => "diplomat"@,
        Flagkind::Lawyer => "lawyer"@,
        Flagkind::Accountant => "accountant"@,
        Flagkind::Spy => "spy"@,
        Flagkind::Oligarch => "oligarch"@,
        Flagkind::Journalist => "journalist"@,
        Flagkind::Activist => "activist"@,
        Flagkind::Lobbyist => "lobbyist"@,
        Flagkind::PoliticalParty => "political_party"@,
        Flagkind::Union => "union"@,
        Flagkind::Religion => "religion"@,
        Flagkind::Military => "military"@,
        Flagkind::FrozenAsset => "frozen_asset"@,
        Flagkind::SanctionedEntity => "sanctioned_entity"@,
        Flagkind::SanctionLinkedEntity => "sanction_linked_entity"@,
        Flagkind::CounterSanctionedEntity => "counter_sanctioned_entity"@,
        Flagkind::ExportControlled => "export_controlled"@,
        Flagkind::TradeRisk => "trade_risk"@,
        Flagkind::DEbarredEntity => "debarred_entity"@,
        Flagkind::PersonOfInterest => "person_of_interest"@,
    }
}

/// The flag kind stored under a name, if any.
pub open spec fn label_flag(t: Seq<char>) -> Option<Flagkind> {
    if t == "crime"@ {
        Some(Flagkind::Crime)
    } else if t == "fraud"@ {
        Some(Flagkind::Fraud)
    } else if t == "cybercrime"@ {
        Some(Flagkind::Cybercrime)
    } else if t == "financial_crime"@ {
        Some(Flagkind::FinancialCrime)
    } else if t == "environment_violations"@ {
        Some(Flagkind::EnvironmentViolations)
    } else if t == "theft"@ {
        Some(Flagkind::Theft)
    } else if t == "war_crimes"@ {
        Some(Flagkind::WarCrimes)
    } else if t == "criminal_leadership"@ {
        Some(Flagkind::CriminalLeaderShip)
    } else if t == "terrorism"@ {
        Some(Flagkind::Terrorism)
    } else if t == "trafficking"@ {
        Some(Flagkind::Trafficking)
    } else if t == "drug_trafficking"@ {
        Some(Flagkind::DrugTrafficking)
    } else if t == "human_trafficking"@ {
        Some(Flagkind::HumanTrafficking)
    } else if t == "wanted"@ {
        Some(Flagkind::Wanted)
    } else if t == "offshore"@ {
        Some(Flagkind::Offshore)
    } else if t == "shell_company"@ {
        Some(Flagkind::ShellCompany)
    } else if t == "public_listed_company"@ {
        Some(Flagkind::PublicListedCompany)
    } else if t == "disqualified"@ {
        Some(Flagkind::Disqualified)
    } else if t == "government"@ {
        Some(Flagkind::Government)
    } else if t == "national_government"@ {
        Some(Flagkind::NationalGovernment)
    } else if t == "state_government"@ {
        Some(Flagkind::StateGovernment)
    } else if t == "municipal_government"@ {
        Some(Flagkind::MunicipalGovernment)
    } else if t == "state_owned_enterprise"@ {
        Some(Flagkind::StateOwnedEnterprise)
    } else if t == "intergovernmental_org"@ {
        Some(Flagkind::IntergovernmentalOrg)
    } else if t == "head_of_government"@ {
        Some(Flagkind::HeadOfGovernment)
    } else if t == "civil_service"@ {
        Some(Flagkind::CivilService)
    } else if t == "executive_branch_of_government"@ {
        Some(Flagkind::ExecutiveBranchOfGovernment)
    } else if t == "legislative_branch_of_government"@ {
        Some(Flagkind::LegislativeBranchOfGovernment)
    } else if t == "judicial_branch_of_government"@ {
        Some(Flagkind::JudicialBranchOfGovernment)
    } else if t == "security_services"@ {
        Some(Flagkind::SecurityServices)
    } else if t == "central_banking_and_fin_integrity"@ {
        Some(Flagkind::CentralBankingAndFinIntegrity)
    } else if t == "financial_services"@ {
        Some(Flagkind::FinancialServices)
    } else if t == "bank"@ {
        Some(Flagkind::Bank)
    } else if t == "fund"@ {
        Some(Flagkind::Fund)
    } else if t == "financial_advisor"@ {
        Some(Flagkind::FinancialAdvisor)
    } else if t == "regulator_action"@ {
        Some(Flagkind::RegulatorAction)
    } else if t == "regulator_warning"@ {
        Some(Flagkind::RegulatorWarning)
    } else if t == "politician"@ {
        Some(Flagkind::Politician)
    } else if t == "non_pep"@ {
        Some(Flagkind::NonPep)
    } else if t == "close_associate"@ {
        Some(Flagkind::CloseAsociate)
    } else if t == "judge"@ {
        Some(Flagkind::Judge)
    } else if t == "civil_servant"@ {
        Some(Flagkind::CivilServant)
    } else if t == "diplomat"@ {
        Some(Flagkind::Diplomat)
    } else if t == "lawyer"@ {
        Some(Flagkind::Lawyer)
    } else if t == "accountant"@ {
        Some(Flagkind::Accountant)
    } else if t == "spy"@ {
        Some(Flagkind::Spy)
    } else if t == "oligarch"@ {
        Some(Flagkind::Oligarch)
    } else if t == "journalist"@ {
        Some(Flagkind::Journalist)
    } else if t == "activist"@ {
        Some(Flagkind::Activist)
    } else if t == "lobbyist"@ {
        Some(Flagkind::Lobbyist)
    } else if t == "political_party"@ {
        Some(Flagkind::PoliticalParty)
    } else if t == "union"@ {
        Some(Flagkind::Union)
    } else if t == "religion"@ {
        Some(Flagkind::Religion)
    } else if t == "military"@ {
        Some(Flagkind::Military)
    } else if t == "frozen_asset"@ {
        Some(Flagkind::FrozenAsset)
    } else if t == "sanctioned_entity"@ {
        Some(Flagkind::SanctionedEntity)
    } else if t == "sanction_linked_entity"@ {
        Some(Flagkind::SanctionLinkedEntity)
    } else if t == "counter_sanctioned_entity"@ {
        Some(Flagkind::CounterSanctionedEntity)
    } else if t == "export_controlled"@ {
        Some(Flagkind::ExportControlled)
    } else if t == "trade_risk"@ {
        Some(Flagkind::TradeRisk)
    } else if t == "debarred_entity"@ {
        Some(Flagkind::DEbarredEntity)
    } else if t == "person_of_interest"@ {
        Some(Flagkind::PersonOfInterest)
    } else {
        None
    }
}

impl Flagkind {
    /// Maps a watchlist topic string to its flag kind.
    pub fn from_topic(value: &str) -> (r: Result<Flagkind, ()>)
        ensures
            r matches Ok(k) ==> topic_flag(value@) == Some(k),
            r is Err <==> topic_flag(value@) is None,
    {
        if str_eq(value, "crime") {
            Ok(Flagkind::Crime)
        } else if str_eq(value, "crime.fraud") {
            Ok(Flagkind::Fraud)
        } else if str_eq(value, "crime.cyber") {
            Ok(Flagkind::Cybercrime)
        } else if str_eq(value, "crime.fin") {
            Ok(Flagkind::FinancialCrime)
        } else if str_eq(value, "crime.env") {
            Ok(Flagkind::EnvironmentViolations)
        } else if str_eq(value, "crime.theft") {
            Ok(Flagkind::Theft)
        } else if str_eq(value, "crime.war") {
            Ok(Flagkind::WarCrimes)
        } else if str_eq(value, "crime.boss") {
            Ok(Flagkind::CriminalLeaderShip)
        } else if str_eq(value, "crime.terror") {
            Ok(Flagkind::Terrorism)
        } else if str_eq(value, "crime.traffick") {
            Ok(Flagkind::Trafficking)
        } else if str_eq(value, "crime.traffick.drug") {
            Ok(Flagkind::DrugTrafficking)
        } else if str_eq(value, "crime.traffick.human") {
            Ok(Flagkind::HumanTrafficking)
        } else if str_eq(value, "wanted") {
            Ok(Flagkind::Wanted)
        } else if str_eq(value, "corp.offshore") {
            Ok(Flagkind::Offshore)
        } else if str_eq(value, "corp.shell") {
            Ok(Flagkind::ShellCompany)
        } else if str_eq(value, "corp.public") {
            Ok(Flagkind::PublicListedCompany)
        } else if str_eq(value, "corp.disqual") {
            Ok(Flagkind::Disqualified)
        } else if str_eq(value, "gov") {
            Ok(Flagkind::Government)
        } else if str_eq(value, "gov.national") {
            Ok(Flagkind::NationalGovernment)
        } else if str_eq(value, "gov.state") {
            Ok(Flagkind::StateGovernment)
        } else if str_eq(value, "gov.muni") {
            Ok(Flagkind::MunicipalGovernment)
        } else if str_eq(value, "gov.soe") {
            Ok(Flagkind::StateOwnedEnterprise)
        } else if str_eq(value, "gov.igo") {
            Ok(Flagkind::IntergovernmentalOrg)
        } else if str_eq(value, "gov.head") {
            Ok(Flagkind::HeadOfGovernment)
        } else if str_eq(value, "gov.admin") {
            Ok(Flagkind::CivilService)
        } else if str_eq(value, "gov.executive") {
            Ok(Flagkind::ExecutiveBranchOfGovernment)
        } else if str_eq(value, "gov.legislative") {
            Ok(Flagkind::LegislativeBranchOfGovernment)
        } else if str_eq(value, "gov.judicial") {
            Ok(Flagkind::JudicialBranchOfGovernment)
        } else if str_eq(value, "gov.security") {
            Ok(Flagkind::SecurityServices)
        } else if str_eq(value, "gov.financial") {
            Ok(Flagkind::CentralBankingAndFinIntegrity)
        } else if str_eq(value, "fin") {
            Ok(Flagkind::FinancialServices)
        } else if str_eq(value, "fin.bank") {
            Ok(Flagkind::Bank)
        } else if str_eq(value, "fin.fund") {
            Ok(Flagkind::Fund)
        } else if str_eq(value, "fin.adivsor") {
            Ok(Flagkind::FinancialAdvisor)
        } else if str_eq(value, "reg.action") {
            Ok(Flagkind::RegulatorAction)
        } else if str_eq(value, "reg.warn") {
            Ok(Flagkind::RegulatorWarning)
        } else if str_eq(value, "role.pep") {
            Ok(Flagkind::Politician)
        } else if str_eq(value, "role.pol") {
            Ok(Flagkind::NonPep)
        } else if str_eq(value, "role.rca") {
            Ok(Flagkind::CloseAsociate)
        } else if str_eq(value, "role.judge") {
            Ok(Flagkind::Judge)
        } else if str_eq(value, "role.civil") {
            Ok(Flagkind::CivilServant)
        } else if str_eq(value, "role.diplo") {
            Ok(Flagkind::Diplomat)
        } else if str_eq(value, "role.lawyer") {
            Ok(Flagkind::Lawyer)
        } else if str_eq(value, "role.acct") {
            Ok(Flagkind::Accountant)
        } else if str_eq(value, "role.spy") {
            Ok(Flagkind::Spy)
        } else if str_eq(value, "role.oligarch") {
            Ok(Flagkind::Oligarch)
        } else if str_eq(value, "role.journo") {
            Ok(Flagkind::Journalist)
        } else if str_eq(value, "role.act") {
            Ok(Flagkind::Activist)
        } else if str_eq(value, "role.lobby") {
            Ok(Flagkind::Lobbyist)
        } else if str_eq(value, "pol.party") {
            Ok(Flagkind::PoliticalParty)
        } else if str_eq(value, "pol.union") {
            Ok(Flagkind::Union)
        } else if str_eq(value, "rel") {
            Ok(Flagkind::Religion)
        } else if str_eq(value, "mil") {
            Ok(Flagkind::Military)
        } else if str_eq(value, "asset.frozen") {
            Ok(Flagkind::FrozenAsset)
        } else if str_eq(value, "sanction") {
            Ok(Flagkind::SanctionedEntity)
        } else if str_eq(value, "sanction.linked") {
            Ok(Flagkind::SanctionLinkedEntity)
        } else if str_eq(value, "sanction.counter") {
            Ok(Flagkind::CounterSanctionedEntity)
        } else if str_eq(value, "export.control") {
            Ok(Flagkind::ExportControlled)
        } else if str_eq(value, "export.risk") {
            Ok(Flagkind::TradeRisk)
        } else if str_eq(value, "debarment") {
            Ok(Flagkind::DEbarredEntity)
        } else if str_eq(value, "poi") {
            Ok(Flagkind::PersonOfInterest)
        } else {
            Err(())
        }
    }

    /// The name under which the store keeps this flag kind.
    pub fn label(&self) -> (r: &'static str)
        ensures
            r@ == flag_label(*self),
    {
        match self {
            Flagkind::Crime => "crime",
            Flagkind::Fraud => "fraud",
            Flagkind::Cybercrime => "cybercrime",
            Flagkind::FinancialCrime => "financial_crime",
            Flagkind::EnvironmentViolations => "environment_violations",
            Flagkind::Theft => "theft",
            Flagkind::WarCrimes => "war_crimes",
            Flagkind::CriminalLeaderShip => "criminal_leadership",
            Flagkind::Terrorism => "terrorism",
            Flagkind::Trafficking => "trafficking",
            Flagkind::DrugTrafficking => "drug_trafficking",
            Flagkind::HumanTrafficking => "human_trafficking",
            Flagkind::Wanted => "wanted",
            Flagkind::Offshore => "offshore",
            Flagkind::ShellCompany => "shell_company",
            Flagkind::PublicListedCompany => "public_listed_company",
            Flagkind::Disqualified => "disqualified",
            Flagkind::Government => "government",
            Flagkind::NationalGovernment => "national_government",
            Flagkind::StateGovernment => "state_government",
            Flagkind::MunicipalGovernment => "municipal_government",
            Flagkind::StateOwnedEnterprise => "state_owned_enterprise",
            Flagkind::IntergovernmentalOrg => "intergovernmental_org",
            Flagkind::HeadOfGovernment => "head_of_government",
            Flagkind::CivilService => "civil_service",
            Flagkind::ExecutiveBranchOfGovernment => "executive_branch_of_government",
            Flagkind::LegislativeBranchOfGovernment => "legislative_branch_of_government",
            Flagkind::JudicialBranchOfGovernment => "judicial_branch_of_government",
            Flagkind::SecurityServices => "security_services",
            Flagkind::CentralBankingAndFinIntegrity => "central_banking_and_fin_integrity",
            Flagkind::FinancialServices => "financial_services",
            Flagkind::Bank => "bank",
            Flagkind::Fund => "fund",
            Flagkind::FinancialAdvisor => "financial_advisor",
            Flagkind::RegulatorAction => "regulator_action",
            Flagkind::RegulatorWarning => "regulator_warning",
            Flagkind::Politician => "politician",
            Flagkind::NonPep => "non_pep",
            Flagkind::CloseAsociate => "close_associate",
            Flagkind::Judge => "judge",
            Flagkind::CivilServant => "civil_servant",
            Flagkind::Diplomat => "diplomat",
            Flagkind::Lawyer => "lawyer",
            Flagkind::Accountant => "accountant",
            Flagkind::Spy => "spy",
            Flagkind::Oligarch => "oligarch",
            Flagkind::Journalist => "journalist",
            Flagkind::Activist => "activist",
            Flagkind::Lobbyist => "lobbyist",
            Flagkind::PoliticalParty => "political_party",
            Flagkind::Union => "union",
            Flagkind::Religion => "religion",
            Flagkind::Military => "military",
            Flagkind::FrozenAsset => "frozen_asset",
            Flagkind::SanctionedEntity => "sanctioned_entity",
            Flagkind::SanctionLinkedEntity => "sanction_linked_entity",
            Flagkind::CounterSanctionedEntity => "counter_sanctioned_entity",
            Flagkind::ExportControlled => "export_controlled",
            Flagkind::TradeRisk => "trade_risk",
            Flagkind::DEbarredEntity => "debarred_entity",
            Flagkind::PersonOfInterest => "person_of_interest",
        }
    }

    /// Reads back a flag kind from the name under which the store keeps it.
    pub fn from_label(value: &str) -> (r: Result<Flagkind, ()>)
        ensures
                        r matches Ok(k) ==> label_flag(value@) == Some(k),
            r is Err <==> label_flag(value@) is None,
    {
        if str_eq(value, "crime") {
            Ok(Flagkind::Crime)
        } else if str_eq(value, "fraud") {
            Ok(Flagkind::Fraud)
        } else if str_eq(value, "cybercrime") {
            Ok(Flagkind::Cybercrime)
        } else if str_eq(value, "financial_crime") {
            Ok(Flagkind::FinancialCrime)
        } else if str_eq(value, "environment_violations") {
            Ok(Flagkind::EnvironmentViolations)
        } else if str_eq(value, "theft") {
            Ok(Flagkind::Theft)
        } else if str_eq(value, "war_crimes") {
            Ok(Flagkind::WarCrimes)
        } else if str_eq(value, "criminal_leadership") {
            Ok(Flagkind::CriminalLeaderShip)
        } else if str_eq(value, "terrorism") {
            Ok(Flagkind::Terrorism)
        } else if str_eq(value, "trafficking") {
            Ok(Flagkind::Trafficking)
        } else if str_eq(value, "drug_trafficking") {
            Ok(Flagkind::DrugTrafficking)
        } else if str_eq(value, "human_trafficking") {
            Ok(Flagkind::HumanTrafficking)
        } else if str_eq(value, "wanted") {
            Ok(Flagkind::Wanted)
        } else if str_eq(value, "offshore") {
            Ok(Flagkind::Offshore)
        } else if str_eq(value, "shell_company") {
            Ok(Flagkind::ShellCompany)
        } else if str_eq(value, "public_listed_company") {
            Ok(Flagkind::PublicListedCompany)
        } else if str_eq(value, "disqualified") {
            Ok(Flagkind::Disqualified)
        } else if str_eq(value, "government") {
            Ok(Flagkind::Government)
        } else if str_eq(value, "national_government") {
            Ok(Flagkind::NationalGovernment)
        } else if str_eq(value, "state_government") {
            Ok(Flagkind::StateGovernment)
        } else if str_eq(value, "municipal_government") {
            Ok(Flagkind::MunicipalGovernment)
        } else if str_eq(value, "state_owned_enterprise") {
            Ok(Flagkind::StateOwnedEnterprise)
        } else if str_eq(value, "intergovernmental_org") {
            Ok(Flagkind::IntergovernmentalOrg)
        } else if str_eq(value, "head_of_government") {
            Ok(Flagkind::HeadOfGovernment)
        } else if str_eq(value, "civil_service") {
            Ok(Flagkind::CivilService)
        } else if str_eq(value, "executive_branch_of_government") {
            Ok(Flagkind::ExecutiveBranchOfGovernment)
        } else if str_eq(value, "legislative_branch_of_government") {
            Ok(Flagkind::LegislativeBranchOfGovernment)
        } else if str_eq(value, "judicial_branch_of_government") {
            Ok(Flagkind::JudicialBranchOfGovernment)
        } else if str_eq(value, "security_services") {
            Ok(Flagkind::SecurityServices)
        } else if str_eq(value, "central_banking_and_fin_integrity") {
            Ok(Flagkind::CentralBankingAndFinIntegrity)
        } else if str_eq(value, "financial_services") {
            Ok(Flagkind::FinancialServices)
        } else if str_eq(value, "bank") {
            Ok(Flagkind::Bank)
        } else if str_eq(value, "fund") {
            Ok(Flagkind::Fund)
        } else if str_eq(value, "financial_advisor") {
            Ok(Flagkind::FinancialAdvisor)
        } else if str_eq(value, "regulator_action") {
            Ok(Flagkind::RegulatorAction)
        } else if str_eq(value, "regulator_warning") {
            Ok(Flagkind::RegulatorWarning)
        } else if str_eq(value, "politician") {
            Ok(Flagkind::Politician)
        } else if str_eq(value, "non_pep") {
            Ok(Flagkind::NonPep)
        } else if str_eq(value, "close_associate") {
            Ok(Flagkind::CloseAsociate)
        } else if str_eq(value, "judge") {
            Ok(Flagkind::Judge)
        } else if str_eq(value, "civil_servant") {
            Ok(Flagkind::CivilServant)
        } else if str_eq(value, "diplomat") {
            Ok(Flagkind::Diplomat)
        } else if str_eq(value, "lawyer") {
            Ok(Flagkind::Lawyer)
        } else if str_eq(value, "accountant") {
            Ok(Flagkind::Accountant)
        } else if str_eq(value, "spy") {
            Ok(Flagkind::Spy)
        } else if str_eq(value, "oligarch") {
            Ok(Flagkind::Oligarch)
        } else if str_eq(value, "journalist") {
            Ok(Flagkind::Journalist)
        } else if str_eq(value, "activist") {
            Ok(Flagkind::Activist)
        } else if str_eq(value, "lobbyist") {
            Ok(Flagkind::Lobbyist)
        } else if str_eq(value, "political_party") {
            Ok(Flagkind::PoliticalParty)
        } else if str_eq(value, "union") {
            Ok(Flagkind::Union)
        } else if str_eq(value, "religion") {
            Ok(Flagkind::Religion)
        } else if str_eq(value, "military") {
            Ok(Flagkind::Military)
        } else if str_eq(value, "frozen_asset") {
            Ok(Flagkind::FrozenAsset)
        } else if str_eq(value, "sanctioned_entity") {
            Ok(Flagkind::SanctionedEntity)
        } else if str_eq(value, "sanction_linked_entity") {
            Ok(Flagkind::SanctionLinkedEntity)
        } else if str_eq(value, "counter_sanctioned_entity") {
            Ok(Flagkind::CounterSanctionedEntity)
        } else if str_eq(value, "export_controlled") {
            Ok(Flagkind::ExportControlled)
        } else if str_eq(value, "trade_risk") {
            Ok(Flagkind::TradeRisk)
        } else if str_eq(value, "debarred_entity") {
            Ok(Flagkind::DEbarredEntity)
        } else if str_eq(value, "person_of_interest") {
            Ok(Flagkind::PersonOfInterest)
        } else {
            Err(())
        }
    }
}

} // verus!
