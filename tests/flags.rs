use company_investigation::flags::Flagkind;

#[test]
fn topic_table_maps_sanction_and_pep() {
    assert_eq!(Flagkind::from_topic("sanction"), Ok(Flagkind::SanctionedEntity));
    assert_eq!(Flagkind::from_topic("role.pep"), Ok(Flagkind::Politician));
    assert_eq!(Flagkind::from_topic("no.such.topic"), Err(()));
}

#[test]
fn every_topic_maps_to_a_flag_whose_label_reads_back() {
    let topics = [
        "crime", "crime.fraud", "crime.cyber", "crime.fin", "crime.env", "crime.theft", "crime.war",
        "crime.boss", "crime.terror", "crime.traffick", "crime.traffick.drug", "crime.traffick.human",
        "wanted", "corp.offshore", "corp.shell", "corp.public", "corp.disqual", "gov", "gov.national",
        "gov.state", "gov.muni", "gov.soe", "gov.igo", "gov.head", "gov.admin", "gov.executive",
        "gov.legislative", "gov.judicial", "gov.security", "gov.financial", "fin", "fin.bank",
        "fin.fund", "fin.adivsor", "reg.action", "reg.warn", "role.pep", "role.pol", "role.rca",
        "role.judge", "role.civil", "role.diplo", "role.lawyer", "role.acct", "role.spy",
        "role.oligarch", "role.journo", "role.act", "role.lobby", "pol.party", "pol.union", "rel",
        "mil", "asset.frozen", "sanction", "sanction.linked", "sanction.counter", "export.control",
        "export.risk", "debarment", "poi",
    ];
    let mut seen = std::collections::HashSet::new();
    for t in topics {
        let k = Flagkind::from_topic(t).unwrap();
        assert!(seen.insert(k), "{} maps to a flag already seen", t);
        assert_eq!(Flagkind::from_label(k.label()), Ok(k));
    }
    assert_eq!(seen.len(), 61);
    assert_eq!(Flagkind::SanctionedEntity.label(), "sanctioned_entity");
    assert_eq!(Flagkind::CentralBankingAndFinIntegrity.label(), "central_banking_and_fin_integrity");
    assert_eq!(Flagkind::from_label("not_a_label"), Err(()));
}
