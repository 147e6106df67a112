use raytracer::renderer::{BounceBudget, RendererType};

#[test]
fn renderer_names_parse() {
    assert_eq!(RendererType::from_name("biased"), Ok(RendererType::RGBBiased));
    assert_eq!(RendererType::from_name("unbiased"), Ok(RendererType::RGBUnbiased));
    assert_eq!("unbiased".parse::<RendererType>(), Ok(RendererType::RGBUnbiased));
}

#[test]
fn unknown_renderer_is_refused_with_its_name() {
    assert_eq!(
        RendererType::from_name("fast"),
        Err("Unknown variant: 'fast'".to_string())
    );
    assert_eq!(
        RendererType::from_name("Biased"),
        Err("Unknown variant: 'Biased'".to_string())
    );
    assert_eq!(RendererType::from_name(""), Err("Unknown variant: ''".to_string()));
}

#[test]
fn bounce_budget_stops_after_limit() {
    let mut budget = BounceBudget::new(2);
    assert_eq!(budget.taken(), 0);
    assert!(budget.record_scatter());
    assert!(budget.record_scatter());
    assert!(!budget.record_scatter());
    assert_eq!(budget.taken(), 3);
}

#[test]
fn bounce_budget_negative_limit_stops_at_once() {
    let mut budget = BounceBudget::new(-1);
    assert!(!budget.record_scatter());
    assert_eq!(budget.taken(), 1);
}
