use vstd::prelude::*;
use crate::text::{decimal, push_decimal, push_signed, push_str, signed_decimal, str_eq, string_from_chars};

verus! {

/// Where a user stands in buying a subscription.
#[derive(Clone, Copy, Debug, PartialEq, Eq, Structural)]
pub enum SubscriptionState {
    Idle,
    AwaitingChatSelection,
    AwaitingPlanSelection,
    AwaitingPaymentConfirmation,
    ProcessingPayment,
}

/// A subscription purchase in progress.
pub struct PaymentProcess {
    pub state: SubscriptionState,
    pub target_chat_id: Option<i64>,
    pub target_chat_username: Option<String>,
    pub selected_plan: Option<String>,
    pub payment_amount: Option<u32>,
    pub payment_id: Option<String>,
}

/// A purchase that waits for the chat to be chosen, nothing chosen yet.
pub fn start_payment_process() -> (res: PaymentProcess)
    ensures
        res.state == SubscriptionState::AwaitingChatSelection,
        res.target_chat_id is None,
        res.target_chat_username is None,
        res.selected_plan is None,
        res.payment_amount is None,
        res.payment_id is None,
{
    PaymentProcess {
        state: SubscriptionState::AwaitingChatSelection,
        target_chat_id: None,
        target_chat_username: None,
        selected_plan: None,
        payment_amount: None,
        payment_id: None,
    }
}

/// A subscription plan, priced in roubles.
#[derive(Clone, Copy, Debug)]
pub struct SubscriptionPlan {
    pub id: &'static str,
    pub name: &'static str,
    pub duration_days: u32,
    pub price_rub: u32,
    pub description: &'static str,
}

pub const PAY_CONTINUE: &'static str = "pay_continue";
pub const PAY_CANCEL: &'static str = "pay_cancel";
pub const PLAN_MONTHLY: &'static str = "plan_monthly";
pub const PLAN_YEARLY: &'static str = "plan_yearly";
pub const PAYMENT_CONFIRM: &'static str = "payment_confirm";
pub const PAYMENT_CANCEL: &'static str = "payment_cancel";
pub const BACK_TO_PLANS: &'static str = "back_to_plans";

pub open spec fn monthly_plan() -> SubscriptionPlan {
    SubscriptionPlan {
        id: "monthly",
        name: "Месячная подписка",
        duration_days: 30,
        price_rub: 500,
        description: "30 дней полной защиты от спама",
    }
}

pub open spec fn yearly_plan() -> SubscriptionPlan {
    SubscriptionPlan {
        id: "yearly",
        name: "Годовая подписка",
        duration_days: 365,
        price_rub: 5000,
        description: "365 дней + скидка 17%",
    }
}

/// The plans on offer, in the order shown.
pub fn subscription_plans() -> (res: Vec<SubscriptionPlan>)
    ensures
        res@ == seq![monthly_plan(), yearly_plan()],
{
    let mut v: Vec<SubscriptionPlan> = Vec::new();
    v.push(
        SubscriptionPlan {
            id: "monthly",
            name: "Месячная подписка",
            duration_days: 30,
            price_rub: 500,
            description: "30 дней полной защиты от спама",
        },
    );
    v.push(
        SubscriptionPlan {
            id: "yearly",
            name: "Годовая подписка",
            duration_days: 365,
            price_rub: 5000,
            description: "365 дней + скидка 17%",
        },
    );
    assert(v@ =~= seq![monthly_plan(), yearly_plan()]);
    v
}

pub open spec fn plan_with_id(id: Seq<char>) -> Option<SubscriptionPlan> {
    if id == monthly_plan().id@ {
        Some(monthly_plan())
    } else if id == yearly_plan().id@ {
        Some(yearly_plan())
    } else {
        None
    }
}

/// Every plan on offer is found again by its id.
pub proof fn lemma_listed_plans_found(i: int)
    requires
        0 <= i < 2,
    ensures
        plan_with_id(seq![monthly_plan(), yearly_plan()][i].id@) == Some(
            seq![monthly_plan(), yearly_plan()][i],
        ),
{
    reveal_strlit("monthly");
    reveal_strlit("yearly");
    assert("monthly"@[0] != "yearly"@[0]);
}

/// The plan with id `plan_id`, if one is on offer.
pub fn get_plan_by_id(plan_id: &str) -> (res: Option<SubscriptionPlan>)
    ensures
        res == plan_with_id(plan_id@),
{
    let plans = subscription_plans();
    let mut i: usize = 0;
    while i < plans.len()
        invariant
            i <= plans@.len(),
            plans@ == seq![monthly_plan(), yearly_plan()],
            forall|j: int| 0 <= j < i ==> plans@[j].id@ != plan_id@,
        decreases plans.len() - i,
    {
        if str_eq(plans[i].id, plan_id) {
            return Some(plans[i]);
        }
        i = i + 1;
    }
    None
}

/// The callback data of a plan's button: `plan_` and its id.
pub fn plan_callback(plan: &SubscriptionPlan) -> (res: String)
    ensures
        res@ == "plan_"@ + plan.id@,
{
    let mut out: Vec<char> = Vec::new();
    push_str(&mut out, "plan_");
    push_str(&mut out, plan.id);
    string_from_chars(&out)
}

/// The notice that the subscription command works in private messages only.
pub fn private_chat_only_notice() -> (res: &'static str)
    ensures
        res@ == "Команда /subscription доступна только в личных сообщениях. Напишите мне в ЛС: @your_bot_username"@,
{
    "Команда /subscription доступна только в личных сообщениях. Напишите мне в ЛС: @your_bot_username"
}

/// The introduction of the subscription purchase.
pub fn subscription_start_text() -> (res: &'static str)
    ensures
        res@ == "💰 **Подписка на GrootBot**\n\n🛡️ **Что вы получите:**\n• Полная защита от спама и скама\n• AI\\-модерация сообщений\n• Блокировка подозрительных ссылок\n• Защита от фишинга\n• Поддержка 24/7\n\n💳 **Тарифы:**\n📅 1 месяц \\- **500₽**\n📅 1 год \\- **5000₽** \\(скидка 17%\\)\n\n🔒 **Безопасная оплата криптовалютой**\n⚡ **Активация мгновенная**"@,
{
    "💰 **Подписка на GrootBot**\n\n🛡️ **Что вы получите:**\n• Полная защита от спама и скама\n• AI\\-модерация сообщений\n• Блокировка подозрительных ссылок\n• Защита от фишинга\n• Поддержка 24/7\n\n💳 **Тарифы:**\n📅 1 месяц \\- **500₽**\n📅 1 год \\- **5000₽** \\(скидка 17%\\)\n\n🔒 **Безопасная оплата криптовалютой**\n⚡ **Активация мгновенная**"
}

/// The request to pick the chat to protect.
pub fn chat_selection_text() -> (res: &'static str)
    ensures
        res@ == "📨 **Выберите чат для подписки**\n\nПерешлите любое сообщение из чата, который хотите защитить.\n\n⚠️ **Важно:** чат должен иметь @username (публичный)"@,
{
    "📨 **Выберите чат для подписки**\n\nПерешлите любое сообщение из чата, который хотите защитить.\n\n⚠️ **Важно:** чат должен иметь @username (публичный)"
}

pub open spec fn plan_selection_message(chat_username: Seq<char>) -> Seq<char> {
    "📋 **Выберите тарифный план**\n\n🎯 **Чат:** @"@
        + chat_username
        + "\n\n💰 **Доступные планы:**"@
}

/// The plan choice for a chat.
pub fn plan_selection_text(chat_username: &str) -> (res: String)
    ensures
        res@ == plan_selection_message(chat_username@),
{
    let mut out: Vec<char> = Vec::new();
    push_str(&mut out, "📋 **Выберите тарифный план**\n\n🎯 **Чат:** @");
    push_str(&mut out, chat_username);
    push_str(&mut out, "\n\n💰 **Доступные планы:**");
    assert(out@ =~= plan_selection_message(chat_username@));
    string_from_chars(&out)
}

pub open spec fn plan_button(plan_name: Seq<char>, price_rub: u32) -> Seq<char> {
    plan_name
        + " - "@
        + decimal(price_rub as nat)
        + "₽"@
}

/// The button of a plan: its name and price.
pub fn plan_button_text(plan_name: &str, price_rub: u32) -> (res: String)
    ensures
        res@ == plan_button(plan_name@, price_rub),
{
    let mut out: Vec<char> = Vec::new();
    push_str(&mut out, plan_name);
    push_str(&mut out, " - ");
    push_decimal(&mut out, price_rub as u64);
    push_str(&mut out, "₽");
    assert(out@ =~= plan_button(plan_name@, price_rub));
    string_from_chars(&out)
}

pub open spec fn confirmation_text(chat_username: Seq<char>, plan_name: Seq<char>, price_rub: u32, duration_days: u32, description: Seq<char>) -> Seq<char> {
    "💳 **Подтверждение заказа**\n\n🎯 **Чат:** @"@
        + chat_username
        + "\n📋 **План:** "@
        + plan_name
        + "\n💰 **Сумма:** "@
        + decimal(price_rub as nat)
        + "₽\n⏱️ **Период:** "@
        + decimal(duration_days as nat)
        + " дней\n\n📝 **Описание:** "@
        + description
        + "\n\n✅ **Подтверждаете оплату?**"@
}

/// The order summary shown before a subscription is paid.
pub fn payment_confirmation_text(chat_username: &str, plan_name: &str, price_rub: u32, duration_days: u32, description: &str) -> (res: String)
    ensures
        res@ == confirmation_text(chat_username@, plan_name@, price_rub, duration_days, description@),
{
    let mut out: Vec<char> = Vec::new();
    push_str(&mut out, "💳 **Подтверждение заказа**\n\n🎯 **Чат:** @");
    push_str(&mut out, chat_username);
    push_str(&mut out, "\n📋 **План:** ");
    push_str(&mut out, plan_name);
    push_str(&mut out, "\n💰 **Сумма:** ");
    push_decimal(&mut out, price_rub as u64);
    push_str(&mut out, "₽\n⏱️ **Период:** ");
    push_decimal(&mut out, duration_days as u64);
    push_str(&mut out, " дней\n\n📝 **Описание:** ");
    push_str(&mut out, description);
    push_str(&mut out, "\n\n✅ **Подтверждаете оплату?**");
    assert(out@ =~= confirmation_text(chat_username@, plan_name@, price_rub, duration_days, description@));
    string_from_chars(&out)
}

pub open spec fn processing_text(target_chat_username: Seq<char>, target_chat_id: i64, plan_name: Seq<char>, payment_amount: u32) -> Seq<char> {
    "🔄 **Создание платежа\\.\\.\\.**\n\n🎯 **Чат:** @"@
        + target_chat_username
        + "\n🎯 **Чат ID:** `"@
        + signed_decimal(target_chat_id as int)
        + "`\n📋 **План:** "@
        + plan_name
        + "\n💰 **Сумма:** "@
        + decimal(payment_amount as nat)
        + "₽\n\n🚧 **DEMO MODE** \\- Интеграция с Heleket в разработке\n\nℹ️ После интеграции здесь будет:\n• Ссылка на оплату криптовалютой\n• Автоматическая активация подписки\n• Уведомления в чат"@
}

/// The notice shown while a payment is created.
pub fn payment_processing_message(target_chat_username: &str, target_chat_id: i64, plan_name: &str, payment_amount: u32) -> (res: String)
    ensures
        res@ == processing_text(target_chat_username@, target_chat_id, plan_name@, payment_amount),
{
    let mut out: Vec<char> = Vec::new();
    push_str(&mut out, "🔄 **Создание платежа\\.\\.\\.**\n\n🎯 **Чат:** @");
    push_str(&mut out, target_chat_username);
    push_str(&mut out, "\n🎯 **Чат ID:** `");
    push_signed(&mut out, target_chat_id);
    push_str(&mut out, "`\n📋 **План:** ");
    push_str(&mut out, plan_name);
    push_str(&mut out, "\n💰 **Сумма:** ");
    push_decimal(&mut out, payment_amount as u64);
    push_str(&mut out, "₽\n\n🚧 **DEMO MODE** \\- Интеграция с Heleket в разработке\n\nℹ️ После интеграции здесь будет:\n• Ссылка на оплату криптовалютой\n• Автоматическая активация подписки\n• Уведомления в чат");
    assert(out@ =~= processing_text(target_chat_username@, target_chat_id, plan_name@, payment_amount));
    string_from_chars(&out)
}

/// The notice shown while a payment for `selected_plan` is created; the plan
/// must be on offer.
pub fn payment_processing_text(
    target_chat_id: i64,
    target_chat_username: &str,
    selected_plan: &str,
    payment_amount: u32,
) -> (res: String)
    requires
        plan_with_id(selected_plan@) is Some,
    ensures
        res@ == processing_text(
            target_chat_username@,
            target_chat_id,
            plan_with_id(selected_plan@)->0.name@,
            payment_amount,
        ),
{
    match get_plan_by_id(selected_plan) {
        Some(plan) => payment_processing_message(target_chat_username, target_chat_id, plan.name, payment_amount),
        None => string_from_chars(&Vec::new()),
    }
}

} // verus!
