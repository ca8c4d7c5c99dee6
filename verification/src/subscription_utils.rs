use vstd::prelude::*;
use crate::text::{decimal, push_decimal, push_str, str_eq, string_from_chars, copy_str};

verus! {

/// Where a user stands in buying a subscription.
#[derive(Clone, Copy, Debug, PartialEq, Eq, Structural)]
pub enum SubscriptionState {
    Idle,
    AwaitingChatSelection,
    AwaitingPlanSelection,
    AwaitingPaymentConfirmation,
    ProcessingPayment,
}

/// A subscription purchase in progress.
pub struct PaymentProcess {
    pub state: SubscriptionState,
    pub target_chat_id: Option<i64>,
    pub target_chat_username: Option<String>,
    pub target_chat_title: Option<String>,
    pub selected_plan: Option<String>,
    pub payment_amount: Option<u32>,
    pub payment_id: Option<String>,
    pub heleket_invoice_uuid: Option<String>,
    pub heleket_order_id: Option<String>,
    pub original_price: Option<u32>,
    pub discount_percent: Option<u32>,
    pub final_price: Option<u32>,
    pub discount_reason: Option<String>,
}

/// A subscription plan, priced in US dollars.
#[derive(Clone, Copy, Debug)]
pub struct SubscriptionPlan {
    pub id: &'static str,
    pub name: &'static str,
    pub duration_days: u32,
    pub price_usd: u32,
    pub description: &'static str,
}

pub const PAY_CONTINUE: &'static str = "pay_continue";
pub const PAY_CANCEL: &'static str = "pay_cancel";
pub const PLAN_MONTHLY: &'static str = "plan_monthly";
pub const PLAN_YEARLY: &'static str = "plan_yearly";
pub const PAYMENT_CONFIRM: &'static str = "payment_confirm";
pub const PAYMENT_CANCEL: &'static str = "payment_cancel";
pub const BACK_TO_PLANS: &'static str = "back_to_plans";

pub open spec fn monthly_plan() -> SubscriptionPlan {
    SubscriptionPlan {
        id: "monthly",
        name: "Месячная подписка",
        duration_days: 30,
        price_usd: 12,
        description: "30 дней ультимативной защиты от нечисти 🛡",
    }
}

pub open spec fn yearly_plan() -> SubscriptionPlan {
    SubscriptionPlan {
        id: "yearly",
        name: "Годовая подписка",
        duration_days: 365,
        price_usd: 120,
        description: "365 дней 👉 2 месяца бесплатно 🎁)",
    }
}

/// The plans on offer, in the order shown.
pub fn subscription_plans() -> (res: Vec<SubscriptionPlan>)
    ensures
        res@ == seq![monthly_plan(), yearly_plan()],
{
    let mut v: Vec<SubscriptionPlan> = Vec::new();
    v.push(
        SubscriptionPlan {
            id: "monthly",
            name: "Месячная подписка",
            duration_days: 30,
            price_usd: 12,
            description: "30 дней ультимативной защиты от нечисти 🛡",
        },
    );
    v.push(
        SubscriptionPlan {
            id: "yearly",
            name: "Годовая подписка",
            duration_days: 365,
            price_usd: 120,
            description: "365 дней 👉 2 месяца бесплатно 🎁)",
        },
    );
    assert(v@ =~= seq![monthly_plan(), yearly_plan()]);
    v
}

pub open spec fn plan_with_id(id: Seq<char>) -> Option<SubscriptionPlan> {
    if id == monthly_plan().id@ {
        Some(monthly_plan())
    } else if id == yearly_plan().id@ {
        Some(yearly_plan())
    } else {
        None
    }
}

/// Every plan on offer is found again by its id.
pub proof fn lemma_listed_plans_found(i: int)
    requires
        0 <= i < 2,
    ensures
        plan_with_id(seq![monthly_plan(), yearly_plan()][i].id@) == Some(
            seq![monthly_plan(), yearly_plan()][i],
        ),
{
    reveal_strlit("monthly");
    reveal_strlit("yearly");
    assert("monthly"@[0] != "yearly"@[0]);
}

/// The plan with id `plan_id`, if one is on offer.
pub fn get_plan_by_id(plan_id: &str) -> (res: Option<SubscriptionPlan>)
    ensures
        res == plan_with_id(plan_id@),
{
    let plans = subscription_plans();
    let mut i: usize = 0;
    while i < plans.len()
        invariant
            i <= plans@.len(),
            plans@ == seq![monthly_plan(), yearly_plan()],
            forall|j: int| 0 <= j < i ==> plans@[j].id@ != plan_id@,
        decreases plans.len() - i,
    {
        if str_eq(plans[i].id, plan_id) {
            return Some(plans[i]);
        }
        i = i + 1;
    }
    None
}

/// The wording of a discount by its reason.
pub open spec fn discount_words(reason: Seq<char>) -> Seq<char> {
    if reason == "existing_subscription"@ {
        "скидка за активную подписку"@
    } else if reason == "yearly_plan"@ {
        "скидка за годовую подписку"@
    } else {
        "скидка"@
    }
}

fn discount_description(reason: &str) -> (res: &'static str)
    ensures
        res@ == discount_words(reason@),
{
    if str_eq(reason, "existing_subscription") {
        "скидка за активную подписку"
    } else if str_eq(reason, "yearly_plan") {
        "скидка за годовую подписку"
    } else {
        "скидка"
    }
}

pub open spec fn confirmation_text(target_chat_title: Seq<char>, target_chat_username: Seq<char>, plan_name: Seq<char>, price_text: Seq<char>, duration_days: u32, description: Seq<char>) -> Seq<char> {
    "Подтверждение заказа\n\n🎯 Чат: "@
        + target_chat_title
        + " (@"@
        + target_chat_username
        + ")\n📋 Тарифный план: "@
        + plan_name
        + "\n"@
        + price_text
        + "\n⏱️ Период: "@
        + decimal(duration_days as nat)
        + " дней\n\n📝 Описание: "@
        + description
        + "\n\n✅ Подтверждаете оплату?"@
}

/// The order summary shown before a subscription is paid.
pub fn payment_confirmation_text(target_chat_title: &str, target_chat_username: &str, plan_name: &str, price_text: &str, duration_days: u32, description: &str) -> (res: String)
    ensures
        res@ == confirmation_text(target_chat_title@, target_chat_username@, plan_name@, price_text@, duration_days, description@),
{
    let mut out: Vec<char> = Vec::new();
    push_str(&mut out, "Подтверждение заказа\n\n🎯 Чат: ");
    push_str(&mut out, target_chat_title);
    push_str(&mut out, " (@");
    push_str(&mut out, target_chat_username);
    push_str(&mut out, ")\n📋 Тарифный план: ");
    push_str(&mut out, plan_name);
    push_str(&mut out, "\n");
    push_str(&mut out, price_text);
    push_str(&mut out, "\n⏱️ Период: ");
    push_decimal(&mut out, duration_days as u64);
    push_str(&mut out, " дней\n\n📝 Описание: ");
    push_str(&mut out, description);
    push_str(&mut out, "\n\n✅ Подтверждаете оплату?");
    assert(out@ =~= confirmation_text(target_chat_title@, target_chat_username@, plan_name@, price_text@, duration_days, description@));
    string_from_chars(&out)
}

pub open spec fn discounted_price_text(original_price: u32, final_price: u32, discount_description: Seq<char>, discount_percent: u32) -> Seq<char> {
    "💰 Сумма: ~~"@
        + decimal(original_price as nat)
        + " $~~ → "@
        + decimal(final_price as nat)
        + " $ ("@
        + discount_description
        + " "@
        + decimal(discount_percent as nat)
        + "%)"@
}

/// The price line of a discounted order.
pub fn discounted_price_line(original_price: u32, final_price: u32, discount_description: &str, discount_percent: u32) -> (res: String)
    ensures
        res@ == discounted_price_text(original_price, final_price, discount_description@, discount_percent),
{
    let mut out: Vec<char> = Vec::new();
    push_str(&mut out, "💰 Сумма: ~~");
    push_decimal(&mut out, original_price as u64);
    push_str(&mut out, " $~~ → ");
    push_decimal(&mut out, final_price as u64);
    push_str(&mut out, " $ (");
    push_str(&mut out, discount_description);
    push_str(&mut out, " ");
    push_decimal(&mut out, discount_percent as u64);
    push_str(&mut out, "%)");
    assert(out@ =~= discounted_price_text(original_price, final_price, discount_description@, discount_percent));
    string_from_chars(&out)
}

pub open spec fn plain_price_text(final_price: u32) -> Seq<char> {
    "💰 Сумма: "@
        + decimal(final_price as nat)
        + " $"@
}

/// The price line of an order without discount.
pub fn plain_price_line(final_price: u32) -> (res: String)
    ensures
        res@ == plain_price_text(final_price),
{
    let mut out: Vec<char> = Vec::new();
    push_str(&mut out, "💰 Сумма: ");
    push_decimal(&mut out, final_price as u64);
    push_str(&mut out, " $");
    assert(out@ =~= plain_price_text(final_price));
    string_from_chars(&out)
}

pub open spec fn price_line(original_price: u32, discount_percent: u32, final_price: u32, reason: Seq<char>) -> Seq<char> {
    if discount_percent > 0 {
        discounted_price_text(original_price, final_price, discount_words(reason), discount_percent)
    } else {
        plain_price_text(final_price)
    }
}

/// The price line of an order: the old and new price and the discount, or
/// the price alone.
pub fn price_text(original_price: u32, discount_percent: u32, final_price: u32, discount_reason: &str) -> (res:
    String)
    ensures
        res@ == price_line(original_price, discount_percent, final_price, discount_reason@),
{
    if discount_percent > 0 {
        discounted_price_line(
            original_price,
            final_price,
            discount_description(discount_reason),
            discount_percent,
        )
    } else {
        plain_price_line(final_price)
    }
}

/// The discount note of the plan choice, by whether the user pays for
/// another chat already.
pub fn discount_info(has_discount_for_other_chats: bool) -> (res: &'static str)
    ensures
        res@ == if has_discount_for_other_chats {
            "\n🎉 Ваша скидка: 30% (активная подписка на другой чат)\n"@
        } else {
            "\n💡 Доступные скидки:\n• Годовая подписка: скидка 17%\n• При наличии подписки на другой чат: скидка 30%\n"@
        },
{
    if has_discount_for_other_chats {
        "\n🎉 Ваша скидка: 30% (активная подписка на другой чат)\n"
    } else {
        "\n💡 Доступные скидки:\n• Годовая подписка: скидка 17%\n• При наличии подписки на другой чат: скидка 30%\n"
    }
}

pub open spec fn payment_link_message(target_chat_title: Seq<char>, chat_username: Seq<char>, amount: u32, order_id: Seq<char>, expires: Seq<char>) -> Seq<char> {
    "Оплата подписки\n\n🎯 Чат: "@
        + target_chat_title
        + " (@"@
        + chat_username
        + ")\n💰 Сумма: "@
        + decimal(amount as nat)
        + " $\n🆔 Идентификатор заказа: `"@
        + order_id
        + "`\n\n⏰ Время на оплату: до "@
        + expires
        + "\n\n👇 Нажмите кнопку для оплаты:"@
}

/// The payment message of an invoice; `expires` is the formatted deadline.
pub fn payment_link_text(target_chat_title: &str, chat_username: &str, amount: u32, order_id: &str, expires: &str) -> (res: String)
    ensures
        res@ == payment_link_message(target_chat_title@, chat_username@, amount, order_id@, expires@),
{
    let mut out: Vec<char> = Vec::new();
    push_str(&mut out, "Оплата подписки\n\n🎯 Чат: ");
    push_str(&mut out, target_chat_title);
    push_str(&mut out, " (@");
    push_str(&mut out, chat_username);
    push_str(&mut out, ")\n💰 Сумма: ");
    push_decimal(&mut out, amount as u64);
    push_str(&mut out, " $\n🆔 Идентификатор заказа: `");
    push_str(&mut out, order_id);
    push_str(&mut out, "`\n\n⏰ Время на оплату: до ");
    push_str(&mut out, expires);
    push_str(&mut out, "\n\n👇 Нажмите кнопку для оплаты:");
    assert(out@ =~= payment_link_message(target_chat_title@, chat_username@, amount, order_id@, expires@));
    string_from_chars(&out)
}

pub open spec fn plan_selection_message(target_chat_title: Seq<char>, chat_username: Seq<char>, discount_info: Seq<char>) -> Seq<char> {
    "Приветствую!\nЯ получил заявку на оплату подписки для чата: "@
        + target_chat_title
        + " (@"@
        + chat_username
        + ")\n"@
        + discount_info
        + "Внимательно проверьте username чата, изменить его после оплаты подписки будет невозможно!\n\nВыберите тарифный план:"@
}

/// The greeting of the plan choice for a chat; `discount_info` is the discount note.
pub fn plan_selection_text(target_chat_title: &str, chat_username: &str, discount_info: &str) -> (res: String)
    ensures
        res@ == plan_selection_message(target_chat_title@, chat_username@, discount_info@),
{
    let mut out: Vec<char> = Vec::new();
    push_str(&mut out, "Приветствую!\nЯ получил заявку на оплату подписки для чата: ");
    push_str(&mut out, target_chat_title);
    push_str(&mut out, " (@");
    push_str(&mut out, chat_username);
    push_str(&mut out, ")\n");
    push_str(&mut out, discount_info);
    push_str(&mut out, "Внимательно проверьте username чата, изменить его после оплаты подписки будет невозможно!\n\nВыберите тарифный план:");
    assert(out@ =~= plan_selection_message(target_chat_title@, chat_username@, discount_info@));
    string_from_chars(&out)
}

/// What `url::Url::parse` says of a text: `None` when it is an absolute URL,
/// else the text of the parse error (its `Display`).
pub uninterp spec fn url_parse_error(s: Seq<char>) -> Option<Seq<char>>;

/// Whether a text parses as an absolute URL.
pub open spec fn parses_as_url(s: Seq<char>) -> bool {
    url_parse_error(s) is None
}

/// Calls `url::Url::parse` and gives back the error's text when it fails. The
/// contract names the answer and does not restate the URL grammar.
#[verifier::external_body]
fn url_error(s: &str) -> (res: Option<String>)
    ensures
        match res {
            Some(e) => url_parse_error(s@) == Some(e@),
            None => url_parse_error(s@) is None,
        },
{
    url::Url::parse(s).err().map(|e| e.to_string())
}

/// Why a payment link cannot be shown.
pub enum PaymentLinkError {
    /// The invoice's address is not a URL: the parser's complaint.
    InvalidPaymentUrl(String),
}

impl PaymentLinkError {
    /// The error's text, as the user is told: "Invalid payment URL: " and the
    /// parser's complaint.
    pub fn message(&self) -> (res: String)
        ensures
            match self {
                PaymentLinkError::InvalidPaymentUrl(d) => res@ == "Invalid payment URL: "@ + d@,
            },
    {
        match self {
            PaymentLinkError::InvalidPaymentUrl(d) => {
                let mut out: Vec<char> = Vec::new();
                push_str(&mut out, "Invalid payment URL: ");
                push_str(&mut out, d.as_str());
                string_from_chars(&out)
            },
        }
    }
}

/// The message of an invoice's payment link, once its address is known to be
/// a URL; `expires` is the formatted payment deadline.
pub fn show_payment_link(
    invoice_url: &str,
    order_id: &str,
    chat_username: &str,
    target_chat_title: &str,
    amount: u32,
    expires: &str,
) -> (res: Result<String, PaymentLinkError>)
    ensures
        match res {
            Ok(m) => parses_as_url(invoice_url@) && m@ == payment_link_message(
                target_chat_title@,
                chat_username@,
                amount,
                order_id@,
                expires@,
            ),
            Err(PaymentLinkError::InvalidPaymentUrl(d)) => url_parse_error(invoice_url@) == Some(d@),
        },
{
    let message = payment_link_text(target_chat_title, chat_username, amount, order_id, expires);
    match url_error(invoice_url) {
        None => Ok(message),
        Some(e) => Err(PaymentLinkError::InvalidPaymentUrl(e)),
    }
}

} // verus!
